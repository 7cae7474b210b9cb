//! VLESS servers: the proxy kind with the most options.

use crate::codec;
use crate::config::proxy;
use crate::config::proxy::Opts;
use crate::config::yaml;
use crate::config::yaml::{Options, Yaml, YamlNumber};
use crate::net;
use crate::number;
use crate::text;
use vstd::prelude::*;
use vstd::string::*;
use vstd::utf8::*;

verus! {

/// The text without its dashes.
pub open spec fn undashed(s: Seq<char>) -> Seq<char>
    decreases s.len(),
{
    if s.len() == 0 {
        s
    } else if s.last() == '-' {
        undashed(s.drop_last())
    } else {
        undashed(s.drop_last()).push(s.last())
    }
}

/// The value of two hexadecimal digits.
pub open spec fn hex_pair(a: u8, b: u8) -> Option<u8> {
    if net::is_hex(a as char) && net::is_hex(b as char) {
        Some((16 * net::hex_value(a as char) + net::hex_value(b as char)) as u8)
    } else {
        None
    }
}

/// Whether two bytes are text of their own.
pub open spec fn pair_is_text(a: u8, b: u8) -> bool {
    valid_utf8(seq![a, b])
}

/// Why the pair at a position cannot be read.
pub open spec fn pair_error(a: u8, b: u8, at: nat) -> Option<Seq<char>> {
    if hex_pair(a, b) is Some {
        None
    } else if !pair_is_text(a, b) {
        Some("non-UTF8 chars"@)
    } else {
        Some("invalid hex char at byte "@ + number::decimal(at))
    }
}

/// The error of the first pair from a position on that cannot be read.
pub open spec fn pairs_error(h: Seq<u8>, i: nat) -> Option<Seq<char>>
    decreases 16 - i,
{
    if i >= 16 {
        None
    } else {
        match pair_error(h[2 * i as int], h[2 * i as int + 1], i) {
            Some(e) => Some(e),
            None => pairs_error(h, i + 1),
        }
    }
}

/// Why a text is no identifier of 16 bytes.
pub open spec fn uuid_error(s: Seq<char>) -> Option<Seq<char>> {
    let h = encode_utf8(undashed(s));
    if h.len() != 32 {
        Some(
            "invalid uuid '"@ + s + "': expected 32 hex chars (with or without dashes), got "@
                + number::decimal(h.len()),
        )
    } else {
        match pairs_error(h, 0) {
            Some(e) => Some("invalid uuid '"@ + s + "': "@ + e),
            None => None,
        }
    }
}

/// The 16 bytes of an identifier.
pub open spec fn uuid_bytes(s: Seq<char>) -> Seq<u8> {
    let h = encode_utf8(undashed(s));
    Seq::new(16, |i: int| hex_pair(h[2 * i], h[2 * i + 1])->0)
}

/// Whether a text is 32 hexadecimal digits, dashes aside.
pub open spec fn is_uuid(s: Seq<char>) -> bool {
    undashed(s).len() == 32 && net::all_hex(undashed(s))
}

/// Whether every pair from a position on can be read.
proof fn lemma_pairs(h: Seq<u8>, i: nat)
    requires
        h.len() == 32,
        i <= 16,
    ensures
        pairs_error(h, i) is None <==> forall|k: int|
            2 * i <= k < 32 ==> net::is_hex(#[trigger] h[k] as char),
    decreases 16 - i,
{
    if i < 16 {
        lemma_pairs(h, i + 1);
        let a = h[2 * i as int];
        let b = h[2 * i as int + 1];
        if pairs_error(h, i) is None {
            assert forall|k: int| 2 * i <= k < 32 implies net::is_hex(
                #[trigger] h[k] as char,
            ) by {
                if k == 2 * i {
                    assert(h[k] == a);
                } else if k == 2 * i + 1 {
                    assert(h[k] == b);
                }
            }
        }
    }
}

/// An identifier is 32 hexadecimal digits once its dashes are taken out, and each of
/// its bytes is the value of a pair of them.
pub proof fn law_uuid_is_hex(s: Seq<char>)
    ensures
        uuid_error(s) is None <==> is_uuid(s),
        uuid_bytes(s).len() == 16,
        is_uuid(s) ==> forall|i: int|
            0 <= i < 16 ==> #[trigger] uuid_bytes(s)[i] == 16 * net::hex_value(undashed(s)[2 * i])
                + net::hex_value(undashed(s)[2 * i + 1]),
{
    let c = undashed(s);
    let h = encode_utf8(c);
    if uuid_error(s) is None {
        lemma_pairs(h, 0);
        let cs = Seq::new(32, |i: int| h[i] as char);
        assert forall|i: int| 0 <= i < cs.len() implies '\0' <= #[trigger] cs[i] <= '\u{7f}' by {
            assert(net::is_hex(h[i] as char));
        }
        assert(is_ascii_chars(cs));
        is_ascii_chars_encode_utf8(cs);
        assert(encode_utf8(cs) =~= h);
        text::lemma_same_bytes(cs, c);
        assert forall|i: int| 0 <= i < c.len() implies net::is_hex(#[trigger] c[i]) by {
            assert(net::is_hex(h[i] as char));
        }
    }
    if is_uuid(s) {
        assert(is_ascii_chars(c));
        is_ascii_chars_encode_utf8(c);
        assert forall|k: int| 0 <= k < 32 implies net::is_hex(#[trigger] h[k] as char)
            && h[k] as char == c[k] by {
            assert(net::is_hex(c[k]));
            assert(c[k] as u8 == h[k]);
        }
        lemma_pairs(h, 0);
        assert forall|i: int| 0 <= i < 16 implies #[trigger] uuid_bytes(s)[i] == 16
            * net::hex_value(c[2 * i]) + net::hex_value(c[2 * i + 1]) by {
            assert(net::is_hex(h[2 * i] as char));
            assert(net::is_hex(h[2 * i + 1] as char));
        }
    }
}

proof fn lemma_undashed_twice(s: Seq<char>)
    ensures
        undashed(undashed(s)) == undashed(s),
    decreases s.len(),
{
    if s.len() > 0 {
        lemma_undashed_twice(s.drop_last());
        if s.last() != '-' {
            assert(undashed(s).drop_last() =~= undashed(s.drop_last()));
        }
    }
}

proof fn lemma_undashed_small(s: Seq<char>)
    ensures
        undashed(text::ascii_lower(s)) == text::ascii_lower(undashed(s)),
    decreases s.len(),
{
    let l = text::ascii_lower(s);
    if s.len() > 0 {
        lemma_undashed_small(s.drop_last());
        assert(l.drop_last() =~= text::ascii_lower(s.drop_last()));
        assert(l.last() == text::lower_char(s.last()));
        if s.last() != '-' {
            assert(text::ascii_lower(undashed(s)) =~= text::ascii_lower(
                undashed(s.drop_last()),
            ).push(l.last()));
        }
    } else {
        assert(l =~= s);
    }
}

/// Neither dashes, wherever they stand, nor the case of letters matter to what an
/// identifier is.
pub proof fn law_dashes_and_case_do_not_matter(s: Seq<char>)
    ensures
        is_uuid(undashed(s)) == is_uuid(s),
        uuid_bytes(undashed(s)) == uuid_bytes(s),
        is_uuid(text::ascii_lower(s)) == is_uuid(s),
        is_uuid(s) ==> uuid_bytes(text::ascii_lower(s)) == uuid_bytes(s),
{
    lemma_undashed_twice(s);
    lemma_undashed_small(s);
    let c = undashed(s);
    let l = text::ascii_lower(c);
    assert forall|i: int| 0 <= i < c.len() implies net::is_hex(#[trigger] l[i]) == net::is_hex(c[i])
        && (net::is_hex(c[i]) ==> net::hex_value(l[i]) == net::hex_value(c[i])) by {
        assert(l[i] == text::lower_char(c[i]));
    }
    if net::all_hex(l) {
        assert forall|i: int| 0 <= i < c.len() implies net::is_hex(#[trigger] c[i]) by {
            assert(net::is_hex(l[i]));
        }
    }
    law_uuid_is_hex(s);
    law_uuid_is_hex(text::ascii_lower(s));
    if is_uuid(s) {
        assert forall|i: int| 0 <= i < 16 implies #[trigger] uuid_bytes(s)[i] == uuid_bytes(
            text::ascii_lower(s),
        )[i] by {
            assert(net::is_hex(c[2 * i]) && net::is_hex(c[2 * i + 1]));
            assert(net::hex_value(l[2 * i]) == net::hex_value(c[2 * i]));
            assert(net::hex_value(l[2 * i + 1]) == net::hex_value(c[2 * i + 1]));
        }
        assert(uuid_bytes(text::ascii_lower(s)) =~= uuid_bytes(s));
    }
}

fn without_dashes(s: &str) -> (out: String)
    ensures
        out@ == undashed(s@),
{
    let chars = text::chars_of(s);
    let mut out = String::new();
    let mut i: usize = 0;
    while i < chars.len()
        invariant
            i <= chars@.len(),
            chars@ == s@,
            out@ == undashed(s@.take(i as int)),
        decreases chars@.len() - i,
    {
        assert(s@.take(i + 1).drop_last() == s@.take(i as int));
        if chars[i] != '-' {
            out.push(chars[i]);
        }
        i += 1;
    }
    assert(s@.take(i as int) == s@);
    out
}

fn read_pair(a: u8, b: u8) -> (r: Option<u8>)
    ensures
        r == hex_pair(a, b),
{
    match (net::hex_digit(a as char), net::hex_digit(b as char)) {
        (Some(x), Some(y)) => Some((x * 16 + y) as u8),
        _ => None,
    }
}

/// Reads an identifier of 16 bytes, with or without dashes.
pub fn parse_uuid(s: &str) -> (r: Result<Vec<u8>, String>)
    ensures
        r is Ok <==> is_uuid(s@),
        (match r {
            Ok(v) => uuid_error(s@) is None && v@ == uuid_bytes(s@),
            Err(e) => uuid_error(s@) == Some(e@),
        }),
{
    proof {
        law_uuid_is_hex(s@);
    }
    let hex = without_dashes(s);
    let h = text::bytes_of(hex.as_str());
    let start = "invalid uuid '".to_owned().concat(s);
    if h.len() != 32 {
        return Err(
            start.concat("': expected 32 hex chars (with or without dashes), got ").concat(
                number::to_decimal(h.len() as u64).as_str(),
            ),
        );
    }
    let start = start.concat("': ");
    let mut out: Vec<u8> = Vec::new();
    let mut i: usize = 0;
    while i < 16
        invariant
            i <= 16,
            h@.len() == 32,
            h@ == encode_utf8(undashed(s@)),
            start@ == "invalid uuid '"@ + s@ + "': "@,
            uuid_error(s@) is None <==> is_uuid(s@),
            pairs_error(h@, 0) == pairs_error(h@, i as nat),
            out@ == uuid_bytes(s@).take(i as int),
        decreases 16 - i,
    {
        let a = h[2 * i];
        let b = h[2 * i + 1];
        match read_pair(a, b) {
            Some(v) => {
                out.push(v);
                assert(out@ =~= uuid_bytes(s@).take(i + 1));
            },
            None => {
                let mut pair: Vec<u8> = Vec::new();
                pair.push(a);
                pair.push(b);
                assert(pair@ =~= seq![a, b]);
                return match text::decode(pair.as_slice()) {
                    Err(_) => Err(start.concat("non-UTF8 chars")),
                    Ok(_) => {
                        let place = "invalid hex char at byte ".to_owned().concat(
                            number::to_decimal(i as u64).as_str(),
                        );
                        Err(start.concat(place.as_str()))
                    },
                };
            },
        }
        i += 1;
    }
    assert(uuid_bytes(s@).take(16) =~= uuid_bytes(s@));
    Ok(out)
}

/// How the TLS layer is set up.
#[derive(Clone, Debug)]
pub struct TlsPlan {
    pub sni: String,
    pub skip_cert_verify: bool,
    pub alpn: Vec<String>,
    pub fingerprint: Option<String>,
    /// The list of keys for an encrypted hello.
    pub ech: Option<Vec<u8>>,
}

/// What carries the proxy's bytes above TCP and TLS.
#[derive(Clone, Debug)]
pub enum Transport {
    Tcp,
    WebSocket {
        path: String,
        host: String,
        max_early_data: u64,
        early_data_header_name: Option<String>,
    },
    Grpc { service_name: String, authority: String },
    H2 { path: String, hosts: Vec<String> },
    HttpUpgrade { path: String, host: String, headers: Vec<(String, String)> },
}

/// What a user should know of a proxy that works otherwise than it seems.
#[derive(Clone, Copy, Debug, PartialEq, Eq, Structural)]
pub enum VlessWarning {
    /// Nothing encrypts the traffic.
    Plaintext,
    /// Multiplexing was asked for and is left out.
    MuxIgnored,
    /// The flow applies to TCP only; datagrams go without it.
    VisionIsTcpOnly,
}

/// A VLESS server.
#[derive(Clone, Debug)]
pub struct Vless {
    pub name: String,
    pub server: String,
    pub port: u16,
    pub uuid: Vec<u8>,
    /// Whether the flow is `xtls-rprx-vision`.
    pub vision: bool,
    pub udp: bool,
    pub tls: Option<TlsPlan>,
    pub transport: Transport,
    pub warnings: Vec<VlessWarning>,
}

/// A text option with a default.
pub open spec fn str_or(o: Opts, k: Seq<char>, default: Seq<char>) -> Seq<char> {
    match yaml::str_option(o, k) {
        Some(s) => s,
        None => default,
    }
}

/// The network of a server.
pub open spec fn network_of(o: Opts) -> Seq<char> {
    str_or(o, "network"@, "tcp"@)
}

/// The flow of a server.
pub open spec fn flow_of(o: Opts) -> Seq<char> {
    str_or(o, "flow"@, ""@)
}

/// Whether the network encrypts by itself.
pub open spec fn encrypts(network: Seq<char>) -> bool {
    network == "grpc"@ || network == "h2"@
}

/// Why the flow cannot be used.
pub open spec fn flow_error(o: Opts) -> Option<Seq<char>> {
    let flow = flow_of(o);
    if flow == ""@ {
        None
    } else if flow == "xtls-rprx-vision"@ {
        if !yaml::flag(o, "tls"@) && !encrypts(network_of(o)) {
            Some(
                "vless: flow xtls-rprx-vision requires an encrypting transport; set `tls: true` or use a TLS-enforcing network (grpc, h2). Without outer TLS, Vision splice is a no-op and the user has no protection."@,
            )
        } else {
            None
        }
    } else if flow == "xtls-rprx-direct"@ || flow == "xtls-rprx-splice"@ {
        Some(
            "vless: flow '"@ + flow
                + "' is deprecated and insecure; use `flow: xtls-rprx-vision` instead. (upstream: adapter/outbound/vless.go accepts this; we reject — Class A ADR-0002)"@,
        )
    } else {
        Some(
            "vless: unknown flow '"@ + flow
                + "'; valid values: '' or 'xtls-rprx-vision'. (upstream: ignores unknown flows; we reject — Class A ADR-0002)"@,
        )
    }
}

/// The inline keys for an encrypted hello, if it is enabled.
pub open spec fn ech_text(o: Opts) -> Option<Seq<char>> {
    match yaml::option(o, "ech-opts"@) {
        Some(y) => if yaml::opt_bool(yaml::entry(y, "enable"@)) == Some(true) {
            yaml::opt_str(yaml::entry(y, "config"@))
        } else {
            None
        },
        None => None,
    }
}

/// Whether the options ask for an encrypted hello and bring the keys for it.
pub open spec fn hides_hello(o: Opts) -> bool {
    yaml::flag(o, "tls"@) && ech_text(o) is Some
}

/// Why the TLS options cannot be used.
pub open spec fn tls_error(o: Opts) -> Option<Seq<char>> {
    if yaml::flag(o, "tls"@) {
        match ech_text(o) {
            Some(t) => match codec::base64_decoded(t) {
                Err(e) => Some("vless: ech-opts.config base64 decode: "@ + e),
                Ok(_) => None,
            },
            None => None,
        }
    } else {
        None
    }
}

/// The host names of an HTTP/2 transport: a list of texts, or the server.
pub open spec fn h2_hosts(o: Opts) -> Seq<Seq<char>> {
    match yaml::opt_entry(yaml::option(o, "h2-opts"@), "host"@) {
        Some(Yaml::Sequence(v)) => yaml::texts(v@),
        _ => seq![yaml::str_option(o, "server"@)->0],
    }
}

/// Why the network cannot be used.
pub open spec fn network_error(name: Seq<char>, o: Opts) -> Option<Seq<char>> {
    let n = network_of(o);
    if n == "tcp"@ || n == "ws"@ || n == "grpc"@ || n == "httpupgrade"@ {
        None
    } else if n == "h2"@ {
        if h2_hosts(o).len() == 0 {
            Some(
                "vless: h2-opts.host must not be empty for proxy '"@ + name
                    + "' (H2 requires at least one authority value)"@,
            )
        } else {
            None
        }
    } else {
        Some(
            "vless: unsupported network '"@ + n
                + "'; valid values: tcp, ws, grpc, h2, httpupgrade"@,
        )
    }
}

/// Why the cipher cannot be used.
pub open spec fn encryption_error(o: Opts) -> Option<Seq<char>> {
    let e = str_or(o, "encryption"@, "none"@);
    if e != ""@ && e != "none"@ {
        Some(
            "vless: encryption '"@ + e
                + "' is not supported; VLESS uses no body cipher (set `encryption: none` or omit the field)"@,
        )
    } else {
        None
    }
}

/// Why the address of the server cannot be used.
pub open spec fn address_error(o: Opts) -> Option<Seq<char>> {
    let server = yaml::str_option(o, "server"@);
    let uuid = yaml::str_option(o, "uuid"@);
    if server is None {
        Some("vless: missing server"@)
    } else if yaml::u64_option(o, "port"@) is None {
        Some("vless: missing port"@)
    } else if uuid is None {
        Some("vless: missing uuid"@)
    } else if uuid_error(uuid->0) is Some {
        Some("vless: "@ + uuid_error(uuid->0)->0)
    } else if encode_utf8(server->0).len() > 255 {
        Some(
            "vless: server '"@ + text::byte_prefix(server->0, 20) + "…' domain is "@
                + number::decimal(encode_utf8(server->0).len())
                + " bytes; max 255 (would be silently truncated — wrong destination, no diagnostic)"@,
        )
    } else {
        None
    }
}

/// Why the options of a VLESS server cannot be used: the first of these.
pub open spec fn vless_error(name: Seq<char>, o: Opts) -> Option<Seq<char>> {
    if address_error(o) is Some {
        address_error(o)
    } else if yaml::option(o, "reality-opts"@) is Some {
        Some(
            "vless: reality-opts is not yet implemented; Reality transport is tracked for post-M1. Remove reality-opts or wait for the Reality spec to land."@,
        )
    } else if encryption_error(o) is Some {
        encryption_error(o)
    } else if flow_error(o) is Some {
        flow_error(o)
    } else if tls_error(o) is Some {
        tls_error(o)
    } else {
        network_error(name, o)
    }
}

/// Whether the TLS layer is set up as the options say.
pub open spec fn tls_matches(t: Option<TlsPlan>, o: Opts) -> bool {
    if !yaml::flag(o, "tls"@) {
        t is None
    } else {
        let server = yaml::str_option(o, "server"@)->0;
        let servername = str_or(o, "servername"@, server);
        let alpn = match yaml::option(o, "alpn"@) {
            Some(Yaml::Sequence(v)) => yaml::texts(v@),
            _ => Seq::empty(),
        };
        &&& t matches Some(p)
        &&& p.sni@ == (if servername.len() == 0 {
            server
        } else {
            servername
        })
        &&& p.skip_cert_verify == yaml::flag(o, "skip-cert-verify"@)
        &&& text::views(p.alpn@) == (if alpn.len() == 0 && network_of(o) == "ws"@ {
            seq!["http/1.1"@]
        } else {
            alpn
        })
        &&& text::opt_view(p.fingerprint) == yaml::str_option(o, "client-fingerprint"@)
        &&& (match ech_text(o) {
            Some(c) => p.ech matches Some(b) && codec::decodes_to(c, b@),
            None => p.ech is None,
        })
    }
}

/// The path in the options of a transport.
pub open spec fn path_in(y: Option<Yaml>) -> Seq<char> {
    match yaml::opt_str(yaml::opt_entry(y, "path"@)) {
        Some(p) => p,
        None => "/"@,
    }
}

/// Whether the transport is what the options say.
pub open spec fn transport_matches(t: Transport, o: Opts) -> bool {
    let server = yaml::str_option(o, "server"@)->0;
    let n = network_of(o);
    if n == "tcp"@ {
        t is Tcp
    } else if n == "ws"@ {
        let w = yaml::option(o, "ws-opts"@);
        let host = yaml::opt_str(yaml::opt_entry(yaml::opt_entry(w, "headers"@), "Host"@));
        let early = yaml::opt_u64(yaml::opt_entry(w, "max-early-data"@));
        &&& t matches Transport::WebSocket { path, host: h, max_early_data, early_data_header_name }
        &&& path@ == path_in(w)
        &&& h@ == (match host {
            Some(x) => x,
            None => server,
        })
        &&& max_early_data == (match early {
            Some(x) => x,
            None => 0,
        })
        &&& text::opt_view(early_data_header_name) == yaml::opt_str(
            yaml::opt_entry(w, "early-data-header-name"@),
        )
    } else if n == "grpc"@ {
        let s = yaml::opt_str(
            yaml::opt_entry(yaml::option(o, "grpc-opts"@), "grpc-service-name"@),
        );
        &&& t matches Transport::Grpc { service_name, authority }
        &&& service_name@ == (match s {
            Some(x) => x,
            None => "GunService"@,
        })
        &&& authority@ == server
    } else if n == "h2"@ {
        &&& t matches Transport::H2 { path, hosts }
        &&& path@ == path_in(yaml::option(o, "h2-opts"@))
        &&& text::views(hosts@) == h2_hosts(o)
    } else {
        let u = yaml::option(o, "http-upgrade-opts"@);
        let host = yaml::opt_str(yaml::opt_entry(u, "host"@));
        &&& t matches Transport::HttpUpgrade { path, host: h, headers }
        &&& path@ == path_in(u)
        &&& h@ == (match host {
            Some(x) => x,
            None => server,
        })
        &&& yaml::pair_views(headers@) == yaml::opt_pairs(yaml::opt_entry(u, "headers"@))
    }
}

/// Whether multiplexing is asked for.
pub open spec fn mux_enabled(o: Opts) -> bool {
    yaml::opt_bool(yaml::opt_entry(yaml::option(o, "mux"@), "enabled"@)) == Some(true)
}

/// The warnings about a server, in order.
pub open spec fn warnings_of(o: Opts) -> Seq<VlessWarning> {
    let vision = flow_of(o) == "xtls-rprx-vision"@;
    let a = if !yaml::flag(o, "tls"@) && !vision && !encrypts(network_of(o)) {
        seq![VlessWarning::Plaintext]
    } else {
        Seq::empty()
    };
    let b = if mux_enabled(o) {
        a.push(VlessWarning::MuxIgnored)
    } else {
        a
    };
    if vision && yaml::flag(o, "udp"@) {
        b.push(VlessWarning::VisionIsTcpOnly)
    } else {
        b
    }
}

/// Whether a VLESS server is what its options say.
pub open spec fn vless_matches(p: Vless, name: Seq<char>, o: Opts) -> bool {
    &&& p.name@ == name
    &&& yaml::str_option(o, "server"@) == Some(p.server@)
    &&& p.port == proxy::port_of(yaml::u64_option(o, "port"@)->0)
    &&& p.uuid@ == uuid_bytes(yaml::str_option(o, "uuid"@)->0)
    &&& p.vision == (flow_of(o) == "xtls-rprx-vision"@)
    &&& p.udp == yaml::flag(o, "udp"@)
    &&& tls_matches(p.tls, o)
    &&& transport_matches(p.transport, o)
    &&& p.warnings@ == warnings_of(o)
}

fn get_str_or<'a>(o: &'a Options, k: &str, default: &'a str) -> (s: &'a str)
    ensures
        s@ == str_or(o@, k@, default@),
{
    match yaml::get_str_option(o, k) {
        Some(s) => s,
        None => default,
    }
}

fn entry_str(y: Option<&Yaml>, k: &str, default: &str) -> (s: String)
    ensures
        s@ == (match yaml::opt_str(
            yaml::opt_entry(
                match y {
                    Some(v) => Some(*v),
                    None => None,
                },
                k@,
            ),
        ) {
            Some(x) => x,
            None => default@,
        }),
{
    match yaml::get_str(yaml::get_opt_entry(y, k)) {
        Some(s) => s.to_owned(),
        None => default.to_owned(),
    }
}

fn entry_flag(y: Option<&Yaml>, k: &str) -> (b: bool)
    ensures
        b == (yaml::opt_bool(
            yaml::opt_entry(
                match y {
                    Some(v) => Some(*v),
                    None => None,
                },
                k@,
            ),
        ) == Some(true)),
{
    match yaml::get_opt_entry(y, k) {
        Some(Yaml::Bool(b)) => *b,
        _ => false,
    }
}

fn read_address(o: &Options) -> (r: Result<Vec<u8>, String>)
    ensures
        (match r {
            Ok(u) => address_error(o@) is None && u@ == uuid_bytes(
                yaml::str_option(o@, "uuid"@)->0,
            ),
            Err(e) => address_error(o@) == Some(e@),
        }),
{
    let server = match yaml::get_str_option(o, "server") {
        Some(s) => s,
        None => {
            return Err("vless: missing server".to_owned());
        },
    };
    if yaml::get_u64_option(o, "port").is_none() {
        return Err("vless: missing port".to_owned());
    }
    let uuid = match yaml::get_str_option(o, "uuid") {
        Some(s) => s,
        None => {
            return Err("vless: missing uuid".to_owned());
        },
    };
    let uuid = match parse_uuid(uuid) {
        Ok(u) => u,
        Err(e) => {
            return Err("vless: ".to_owned().concat(e.as_str()));
        },
    };
    let len: usize = text::bytes_of(server).len();
    if len > 255 {
        return Err(
            "vless: server '".to_owned().concat(text::first_bytes(server, 20).as_str()).concat(
                "…' domain is ",
            ).concat(number::to_decimal(len as u64).as_str()).concat(
                " bytes; max 255 (would be silently truncated — wrong destination, no diagnostic)",
            ),
        );
    }
    Ok(uuid)
}

fn check_encryption(o: &Options) -> (r: Option<String>)
    ensures
        text::opt_view(r) == encryption_error(o@),
{
    let e = get_str_or(o, "encryption", "none");
    if !text::same(e, "") && !text::same(e, "none") {
        Some(
            "vless: encryption '".to_owned().concat(e).concat(
                "' is not supported; VLESS uses no body cipher (set `encryption: none` or omit the field)",
            ),
        )
    } else {
        None
    }
}

fn check_flow(o: &Options) -> (r: Option<String>)
    ensures
        text::opt_view(r) == flow_error(o@),
{
    let flow = get_str_or(o, "flow", "");
    let network = get_str_or(o, "network", "tcp");
    if text::same(flow, "") {
        None
    } else if text::same(flow, "xtls-rprx-vision") {
        if !yaml::get_flag(o, "tls") && !text::same(network, "grpc") && !text::same(network, "h2") {
            Some(
                "vless: flow xtls-rprx-vision requires an encrypting transport; set `tls: true` or use a TLS-enforcing network (grpc, h2). Without outer TLS, Vision splice is a no-op and the user has no protection.".to_owned(),
            )
        } else {
            None
        }
    } else if text::same(flow, "xtls-rprx-direct") || text::same(flow, "xtls-rprx-splice") {
        Some(
            "vless: flow '".to_owned().concat(flow).concat(
                "' is deprecated and insecure; use `flow: xtls-rprx-vision` instead. (upstream: adapter/outbound/vless.go accepts this; we reject — Class A ADR-0002)",
            ),
        )
    } else {
        Some(
            "vless: unknown flow '".to_owned().concat(flow).concat(
                "'; valid values: '' or 'xtls-rprx-vision'. (upstream: ignores unknown flows; we reject — Class A ADR-0002)",
            ),
        )
    }
}

fn collect_warnings(o: &Options) -> (w: Vec<VlessWarning>)
    ensures
        w@ == warnings_of(o@),
{
    let flow = get_str_or(o, "flow", "");
    let network = get_str_or(o, "network", "tcp");
    let vision = text::same(flow, "xtls-rprx-vision");
    let mut w: Vec<VlessWarning> = Vec::new();
    if !yaml::get_flag(o, "tls") && !vision && !text::same(network, "grpc") && !text::same(
        network,
        "h2",
    ) {
        w.push(VlessWarning::Plaintext);
        assert(w@ =~= seq![VlessWarning::Plaintext]);
    }
    if entry_flag(yaml::get_option(o, "mux"), "enabled") {
        w.push(VlessWarning::MuxIgnored);
    }
    if vision && yaml::get_flag(o, "udp") {
        w.push(VlessWarning::VisionIsTcpOnly);
    }
    w
}

/// The keys for an encrypted hello, given what their text decodes to.
pub fn ech_keys(decoded: Result<Vec<u8>, String>) -> (r: Result<Vec<u8>, String>)
    ensures
        (match (decoded, r) {
            (Ok(b), Ok(k)) => k == b,
            (Err(e), Err(m)) => m@ == "vless: ech-opts.config base64 decode: "@ + e@,
            _ => false,
        }),
{
    match decoded {
        Ok(b) => Ok(b),
        Err(e) => Err("vless: ech-opts.config base64 decode: ".to_owned().concat(e.as_str())),
    }
}

fn read_tls(o: &Options, server: &str) -> (r: Result<Option<TlsPlan>, String>)
    requires
        yaml::str_option(o@, "server"@) == Some(server@),
    ensures
        (match r {
            Ok(t) => tls_error(o@) is None && tls_matches(t, o@),
            Err(e) => tls_error(o@) == Some(e@),
        }),
{
    if !yaml::get_flag(o, "tls") {
        return Ok(None);
    }
    let servername = get_str_or(o, "servername", server);
    let sni = if servername.is_empty() {
        server.to_owned()
    } else {
        servername.to_owned()
    };
    let mut alpn = match yaml::get_option(o, "alpn") {
        Some(Yaml::Sequence(v)) => yaml::get_texts(v),
        _ => text::no_strings(),
    };
    assert(text::views(alpn@).len() == alpn@.len());
    if alpn.len() == 0 && text::same(get_str_or(o, "network", "tcp"), "ws") {
        text::push_string(&mut alpn, "http/1.1".to_owned());
        assert(text::views(alpn@) =~= seq!["http/1.1"@]);
    }
    let fingerprint = match yaml::get_str_option(o, "client-fingerprint") {
        Some(s) => Some(s.to_owned()),
        None => None,
    };
    let y = yaml::get_option(o, "ech-opts");
    let mut ech: Option<Vec<u8>> = None;
    if entry_flag(y, "enable") {
        if let Some(c) = yaml::get_str(yaml::get_opt_entry(y, "config")) {
            match ech_keys(codec::base64_decode(c)) {
                Ok(b) => {
                    ech = Some(b);
                },
                Err(e) => {
                    return Err(e);
                },
            }
        }
    }
    Ok(
        Some(
            TlsPlan {
                sni,
                skip_cert_verify: yaml::get_flag(o, "skip-cert-verify"),
                alpn,
                fingerprint,
                ech,
            },
        ),
    )
}

fn read_transport(name: &str, o: &Options, server: &str) -> (r: Result<Transport, String>)
    requires
        yaml::str_option(o@, "server"@) == Some(server@),
    ensures
        (match r {
            Ok(t) => network_error(name@, o@) is None && transport_matches(t, o@),
            Err(e) => network_error(name@, o@) == Some(e@),
        }),
{
    let network = get_str_or(o, "network", "tcp");
    if text::same(network, "tcp") {
        Ok(Transport::Tcp)
    } else if text::same(network, "ws") {
        let w = yaml::get_option(o, "ws-opts");
        let headers = yaml::get_opt_entry(w, "headers");
        let max_early_data: u64 = match yaml::get_opt_entry(w, "max-early-data") {
            Some(Yaml::Number(YamlNumber::Unsigned(n))) => *n,
            _ => 0,
        };
        let early_data_header_name = match yaml::get_str(
            yaml::get_opt_entry(w, "early-data-header-name"),
        ) {
            Some(s) => Some(s.to_owned()),
            None => None,
        };
        Ok(
            Transport::WebSocket {
                path: entry_str(w, "path", "/"),
                host: entry_str(headers, "Host", server),
                max_early_data,
                early_data_header_name,
            },
        )
    } else if text::same(network, "grpc") {
        let g = yaml::get_option(o, "grpc-opts");
        Ok(
            Transport::Grpc {
                service_name: entry_str(g, "grpc-service-name", "GunService"),
                authority: server.to_owned(),
            },
        )
    } else if text::same(network, "h2") {
        proof {
            reveal_strlit("h2");
            reveal_strlit("httpupgrade");
            assert("h2"@.len() != "httpupgrade"@.len());
        }
        let h = yaml::get_option(o, "h2-opts");
        let hosts = match yaml::get_opt_entry(h, "host") {
            Some(Yaml::Sequence(v)) => yaml::get_texts(v),
            _ => {
                let mut v = text::no_strings();
                text::push_string(&mut v, server.to_owned());
                assert(text::views(v@) =~= seq![server@]);
                v
            },
        };
        assert(text::views(hosts@).len() == hosts@.len());
        if hosts.len() == 0 {
            return Err(
                "vless: h2-opts.host must not be empty for proxy '".to_owned().concat(name).concat(
                    "' (H2 requires at least one authority value)",
                ),
            );
        }
        Ok(Transport::H2 { path: entry_str(h, "path", "/"), hosts })
    } else if text::same(network, "httpupgrade") {
        let u = yaml::get_option(o, "http-upgrade-opts");
        Ok(
            Transport::HttpUpgrade {
                path: entry_str(u, "path", "/"),
                host: entry_str(u, "host", server),
                headers: yaml::get_pairs(yaml::get_opt_entry(u, "headers")),
            },
        )
    } else {
        Err(
            "vless: unsupported network '".to_owned().concat(network).concat(
                "'; valid values: tcp, ws, grpc, h2, httpupgrade",
            ),
        )
    }
}

/// Reads the options of a VLESS server.
pub fn parse_vless(name: &str, o: &Options) -> (r: Result<Vless, String>)
    ensures
        (match r {
            Ok(p) => vless_error(name@, o@) is None && vless_matches(p, name@, o@),
            Err(e) => vless_error(name@, o@) == Some(e@),
        }),
{
    let uuid = match read_address(o) {
        Ok(u) => u,
        Err(e) => {
            return Err(e);
        },
    };
    if yaml::get_option(o, "reality-opts").is_some() {
        return Err(
            "vless: reality-opts is not yet implemented; Reality transport is tracked for post-M1. Remove reality-opts or wait for the Reality spec to land.".to_owned(),
        );
    }
    if let Some(e) = check_encryption(o) {
        return Err(e);
    }
    if let Some(e) = check_flow(o) {
        return Err(e);
    }
    let server = match yaml::get_str_option(o, "server") {
        Some(s) => s,
        None => "",
    };
    let port: u64 = match yaml::get_u64_option(o, "port") {
        Some(p) => p,
        None => 0,
    };
    let tls = match read_tls(o, server) {
        Ok(t) => t,
        Err(e) => {
            return Err(e);
        },
    };
    let transport = match read_transport(name, o, server) {
        Ok(t) => t,
        Err(e) => {
            return Err(e);
        },
    };
    Ok(
        Vless {
            name: name.to_owned(),
            server: server.to_owned(),
            port: (port % 0x1_0000) as u16,
            uuid,
            vision: text::same(get_str_or(o, "flow", ""), "xtls-rprx-vision"),
            udp: yaml::get_flag(o, "udp"),
            tls,
            transport,
            warnings: collect_warnings(o),
        },
    )
}

/// Why a server cannot be used although its options can: a layer that it needs could
/// not be built, the TLS layer before that of WebSocket. No other layer fails.
pub open spec fn layers_error(
    p: Vless,
    tls: Result<(), String>,
    ws: Result<(), String>,
) -> Option<Seq<char>> {
    match (tls, ws) {
        (Err(e), _) if p.tls is Some => Some("vless: TLS layer error: "@ + e@),
        (_, Err(e)) if p.transport is WebSocket => Some("vless: ws layer error: "@ + e@),
        _ => None,
    }
}

/// A server whose options were read, given what came of building its layers.
pub fn with_layers(p: Vless, tls: Result<(), String>, ws: Result<(), String>) -> (r: Result<
    Vless,
    String,
>)
    ensures
        (match r {
            Ok(v) => v == p && layers_error(p, tls, ws) is None,
            Err(e) => layers_error(p, tls, ws) == Some(e@),
        }),
{
    if p.tls.is_some() {
        if let Err(e) = &tls {
            return Err("vless: TLS layer error: ".to_owned().concat(e.as_str()));
        }
    }
    let socket = match &p.transport {
        Transport::WebSocket { .. } => true,
        _ => false,
    };
    if socket {
        if let Err(e) = &ws {
            return Err("vless: ws layer error: ".to_owned().concat(e.as_str()));
        }
    }
    Ok(p)
}

} // verus!
