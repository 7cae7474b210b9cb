//! What the options of a proxy come to.

use crate::codec;
use crate::config::outbound;
use crate::config::outbound::Outbound;
use crate::config::proxy;
use crate::config::proxy::{
    Direct, HttpProxy, Opts, PasswordServer, Shadowsocks, Socks5Proxy, Trojan,
};
use crate::config::vless;
use crate::config::vless::{TlsPlan, Transport, Vless, VlessWarning};
use crate::config::yaml;
use crate::config::yaml::{Yaml, YamlNumber};
use crate::net;
use crate::net::SocketAddr;
use crate::text;
use vstd::prelude::*;
use vstd::string::*;
use vstd::utf8::*;

verus! {

proof fn lemma_option_from(o: Opts, k: Seq<char>, from: int, i: int)
    requires
        0 <= from <= i < o.len(),
        o[i].0@ == k,
        forall|j: int| from <= j < i ==> (#[trigger] o[j]).0@ != k,
    ensures
        yaml::option_from(o, k, from) == Some(o[i].1),
    decreases i - from,
{
    if from < i {
        lemma_option_from(o, k, from + 1, i);
    }
}

proof fn lemma_no_option(o: Opts, k: Seq<char>, from: int)
    requires
        0 <= from,
        forall|j: int| from <= j < o.len() ==> (#[trigger] o[j]).0@ != k,
    ensures
        yaml::option_from(o, k, from) is None,
    decreases o.len() - from,
{
    if from < o.len() {
        lemma_no_option(o, k, from + 1);
    }
}

/// An option is what stands first under its name; under a name that is not there stands
/// nothing. It is read as what it is: a text as a text, a truth value as one and a whole
/// number as one, and never as anything else.
pub proof fn law_options_are_read_as_what_they_are(o: Opts, k: Seq<char>, i: int)
    requires
        0 <= i <= o.len(),
        forall|j: int| 0 <= j < i ==> (#[trigger] o[j]).0@ != k,
    ensures
        i == o.len() ==> yaml::option(o, k) is None,
        i < o.len() && o[i].0@ == k ==> yaml::option(o, k) == Some(o[i].1),
        i < o.len() && o[i].0@ == k ==> (match o[i].1 {
            Yaml::Text(s) => yaml::str_option(o, k) == Some(s@) && yaml::u64_option(o, k) is None
                && !yaml::flag(o, k),
            Yaml::Bool(b) => yaml::str_option(o, k) is None && yaml::u64_option(o, k) is None
                && yaml::flag(o, k) == b,
            Yaml::Number(YamlNumber::Unsigned(n)) => yaml::u64_option(o, k) == Some(n)
                && yaml::str_option(o, k) is None && !yaml::flag(o, k),
            _ => yaml::str_option(o, k) is None && yaml::u64_option(o, k) is None && !yaml::flag(
                o,
                k,
            ),
        }),
        i == o.len() ==> yaml::str_option(o, k) is None && yaml::u64_option(o, k) is None
            && !yaml::flag(o, k),
{
    if i == o.len() {
        lemma_no_option(o, k, 0);
    } else if o[i].0@ == k {
        lemma_option_from(o, k, 0, i);
    }
}

proof fn lemma_entry_from(m: Seq<(Yaml, Yaml)>, k: Seq<char>, from: int, i: int)
    requires
        0 <= from <= i <= m.len(),
        forall|j: int| from <= j < i ==> !yaml::is_text((#[trigger] m[j]).0, k),
    ensures
        i < m.len() && yaml::is_text(m[i].0, k) ==> yaml::entry_from(m, k, from) == Some(m[i].1),
        i == m.len() ==> yaml::entry_from(m, k, from) is None,
    decreases i - from,
{
    if from < i {
        lemma_entry_from(m, k, from + 1, i);
    }
}

/// An entry of a mapping is what stands first under its name; only a mapping has any.
pub proof fn law_entries_are_found_by_name(m: Vec<(Yaml, Yaml)>, k: Seq<char>, i: int, y: Yaml)
    requires
        0 <= i <= m@.len(),
        forall|j: int| 0 <= j < i ==> !yaml::is_text((#[trigger] m@[j]).0, k),
    ensures
        i < m@.len() && (m@[i].0 matches Yaml::Text(s) && s@ == k) ==> yaml::entry(
            Yaml::Mapping(m),
            k,
        ) == Some(m@[i].1),
        i == m@.len() ==> yaml::entry(Yaml::Mapping(m), k) is None,
        !(y is Mapping) ==> yaml::entry(y, k) is None,
        yaml::opt_entry(None, k) is None,
{
    lemma_entry_from(m@, k, 0, i);
}

/// The texts of a list are kept in order and everything else in it is passed over.
pub proof fn law_texts_of_a_sequence_are_kept(a: Seq<Yaml>, b: Seq<Yaml>, y: Yaml)
    ensures
        yaml::texts(a + b) == yaml::texts(a) + yaml::texts(b),
        y matches Yaml::Text(s) ==> yaml::texts(seq![y]) == seq![s@],
        !(y is Text) ==> yaml::texts(seq![y]).len() == 0,
    decreases b.len(),
{
    assert(seq![y].drop_last() =~= Seq::<Yaml>::empty());
    assert(yaml::texts(Seq::empty()) =~= Seq::<Seq<char>>::empty());
    if let Yaml::Text(s) = y {
        assert(Seq::<Seq<char>>::empty().push(s@) =~= seq![s@]);
    }
    let x = yaml::texts(a);
    if b.len() == 0 {
        assert(a + b =~= a);
        assert(x + yaml::texts(b) =~= x);
    } else {
        let r = b.drop_last();
        law_texts_of_a_sequence_are_kept(a, r, y);
        assert((a + b).drop_last() =~= a + r);
        assert((a + b).last() == b.last());
        if let Some(t) = yaml::str_of(b.last()) {
            assert(x + yaml::texts(r).push(t) =~= (x + yaml::texts(r)).push(t));
        }
    }
}

/// The entries of a mapping that are texts under texts are kept in order.
pub proof fn law_pairs_of_texts_are_kept(
    a: Seq<(Yaml, Yaml)>,
    b: Seq<(Yaml, Yaml)>,
    y: (Yaml, Yaml),
)
    ensures
        yaml::text_pairs(a + b) == yaml::text_pairs(a) + yaml::text_pairs(b),
        y matches (Yaml::Text(k), Yaml::Text(v)) ==> yaml::text_pairs(seq![y]) == seq![
            (k@, v@),
        ],
        !(y.0 is Text && y.1 is Text) ==> yaml::text_pairs(seq![y]).len() == 0,
    decreases b.len(),
{
    assert(seq![y].drop_last() =~= Seq::<(Yaml, Yaml)>::empty());
    let none = Seq::<(Seq<char>, Seq<char>)>::empty();
    assert(yaml::text_pairs(Seq::empty()) =~= none);
    if let (Yaml::Text(k), Yaml::Text(v)) = y {
        assert(none.push((k@, v@)) =~= seq![(k@, v@)]);
    }
    let x = yaml::text_pairs(a);
    if b.len() == 0 {
        assert(a + b =~= a);
        assert(x + yaml::text_pairs(b) =~= x);
    } else {
        let r = b.drop_last();
        law_pairs_of_texts_are_kept(a, r, y);
        assert((a + b).drop_last() =~= a + r);
        assert((a + b).last() == b.last());
        if let (Some(k), Some(v)) = (yaml::str_of(b.last().0), yaml::str_of(b.last().1)) {
            assert(x + yaml::text_pairs(r).push((k, v)) =~= (x + yaml::text_pairs(r)).push((k, v)));
        }
    }
}

proof fn lemma_protocol_names()
    ensures
        "ss"@.len() == 2 && "trojan"@.len() == 6 && "vless"@.len() == 5 && "http"@.len() == 4,
        "socks5"@.len() == 6 && "direct"@.len() == 6 && "anytls"@.len() == 6 && "hysteria2"@.len()
            == 9,
        "trojan"@[0] == 't' && "socks5"@[0] == 's' && "direct"@[0] == 'd' && "anytls"@[0] == 'a',
{
    reveal_strlit("ss");
    reveal_strlit("trojan");
    reveal_strlit("vless");
    reveal_strlit("http");
    reveal_strlit("socks5");
    reveal_strlit("direct");
    reveal_strlit("anytls");
    reveal_strlit("hysteria2");
}

/// The type of a proxy names the protocol that it speaks, each name its own; a proxy
/// without a name or a type, or of another type, is refused. The proxy goes by its own
/// name.
pub proof fn law_types_name_protocols(p: Outbound, o: Opts)
    requires
        outbound::proxy_error(o) is None,
        outbound::proxy_matches(p, o),
    ensures
        yaml::str_option(o, "name"@) is Some,
        yaml::str_option(o, "type"@) is Some,
        ({
            let t = yaml::str_option(o, "type"@)->0;
            &&& p is Shadowsocks <==> t == "ss"@
            &&& p is Trojan <==> t == "trojan"@
            &&& p is Vless <==> t == "vless"@
            &&& p is Http <==> t == "http"@
            &&& p is Socks5 <==> t == "socks5"@
            &&& p is Direct <==> t == "direct"@
            &&& p is AnyTls <==> t == "anytls"@
            &&& p is Hysteria2 <==> t == "hysteria2"@
        }),
        !(p is Direct) ==> yaml::str_option(o, "name"@) == Some(outbound::own_name(p)),
        p is Direct ==> outbound::own_name(p) == "DIRECT"@,
{
    lemma_protocol_names();
}

/// A proxy of another type, or without a name or a type, is refused.
pub proof fn law_unknown_types_are_refused(o: Opts)
    ensures
        yaml::str_option(o, "name"@) is None || yaml::str_option(o, "type"@) is None
            ==> outbound::proxy_error(o) is Some,
        yaml::str_option(o, "type"@) matches Some(t) ==> (t != "ss"@ && t != "trojan"@ && t
            != "vless"@ && t != "http"@ && t != "socks5"@ && t != "direct"@ && t != "anytls"@ && t
            != "hysteria2"@ ==> outbound::proxy_error(o) is Some),
{
}

/// Where a proxy is reached and with which password is what its options say, whatever its
/// protocol. A port within range is taken as it is.
pub proof fn law_proxies_are_reached_where_their_options_say(p: Outbound, o: Opts)
    requires
        outbound::proxy_error(o) is None,
        outbound::proxy_matches(p, o),
    ensures
        ({
            let server = yaml::str_option(o, "server"@);
            let port = yaml::u64_option(o, "port"@);
            let password = yaml::str_option(o, "password"@);
            match p {
                Outbound::Shadowsocks(x) => server == Some(x.server@) && password == Some(
                    x.password@,
                ) && at_port(x.port, port) && yaml::str_option(o, "cipher"@) == Some(x.cipher@),
                Outbound::Trojan(x) => server == Some(x.server@) && password == Some(x.password@)
                    && at_port(x.port, port),
                Outbound::Vless(x) => server == Some(x.server@) && at_port(x.port, port),
                Outbound::Http(x) => server == Some(x.server@) && at_port(x.port, port),
                Outbound::Socks5(x) => server == Some(x.server@) && at_port(x.port, port),
                Outbound::Direct(_) => true,
                Outbound::AnyTls(x) => server == Some(x.server@) && password == Some(x.password@)
                    && at_port(x.port, port) && x.port != 0,
                Outbound::Hysteria2(x) => server == Some(x.server@) && password == Some(x.password@)
                    && at_port(x.port, port) && x.port != 0 && x.password@.len() > 0,
            }
        }),
{
    lemma_protocol_names();
}

/// Whether a port is the one that a number says: the number itself where it is a port.
pub open spec fn at_port(port: u16, n: Option<u64>) -> bool {
    n matches Some(m) && (m <= 0xffff ==> port == m)
}

/// The other options of a proxy are taken from the options of their own names; one that
/// is not there is off, empty or none.
pub proof fn law_options_go_by_their_names(p: Outbound, o: Opts)
    requires
        outbound::proxy_error(o) is None,
        outbound::proxy_matches(p, o),
    ensures
        (match p {
            Outbound::Shadowsocks(x) => {
                &&& x.udp == yaml::flag(o, "udp"@)
                &&& text::opt_view(x.plugin) == yaml::str_option(o, "plugin"@)
                &&& yaml::option(o, "plugin-opts"@) is None ==> x.plugin_opts is None
                &&& yaml::option(o, "plugin-opts"@) matches Some(Yaml::Text(t)) ==> (
                x.plugin_opts matches Some(s) && s@ == t@)
            },
            Outbound::Trojan(x) => {
                &&& x.udp == yaml::flag(o, "udp"@)
                &&& x.skip_cert_verify == yaml::flag(o, "skip-cert-verify"@)
                &&& yaml::str_option(o, "sni"@) matches Some(s) ==> x.sni@ == s
                &&& yaml::str_option(o, "sni"@) is None ==> x.sni@.len() == 0
            },
            Outbound::Http(x) => {
                &&& x.tls == yaml::flag(o, "tls"@)
                &&& x.skip_cert_verify == yaml::flag(o, "skip-cert-verify"@)
                &&& yaml::pair_views(x.headers@) == yaml::opt_pairs(yaml::option(o, "headers"@))
                &&& signs_in(x.auth, o)
            },
            Outbound::Socks5(x) => {
                &&& x.tls == yaml::flag(o, "tls"@)
                &&& x.skip_cert_verify == yaml::flag(o, "skip-cert-verify"@)
                &&& x.udp_ignored == yaml::flag(o, "udp"@)
                &&& signs_in(x.auth, o)
            },
            Outbound::AnyTls(x) => {
                &&& text::opt_view(x.sni) == yaml::str_option(o, "sni"@)
                &&& x.skip_cert_verify == yaml::flag(o, "skip-cert-verify"@)
            },
            Outbound::Hysteria2(x) => {
                &&& text::opt_view(x.sni) == yaml::str_option(o, "sni"@)
                &&& x.skip_cert_verify == yaml::flag(o, "skip-cert-verify"@)
            },
            _ => true,
        }),
{
    lemma_protocol_names();
    reveal_strlit("");
}

/// Whether a proxy signs in with the user name and the password of its options, and only
/// where both are there.
pub open spec fn signs_in(auth: Option<(String, String)>, o: Opts) -> bool {
    match (yaml::str_option(o, "username"@), yaml::str_option(o, "password"@)) {
        (Some(u), Some(p)) => auth matches Some((a, b)) && a@ == u && b@ == p,
        (None, None) => auth is None,
        _ => false,
    }
}

/// When a proxy with a server cannot be used: where its server, its port or what its
/// protocol needs besides is missing.
pub proof fn law_when_a_proxy_is_refused(name: Seq<char>, o: Opts)
    ensures
        ({
            let server = yaml::str_option(o, "server"@) is Some;
            let port = yaml::u64_option(o, "port"@);
            let password = yaml::str_option(o, "password"@);
            let user = yaml::str_option(o, "username"@);
            &&& proxy::ss_error(o) is None <==> server && port is Some && password is Some
                && yaml::str_option(o, "cipher"@) is Some
            &&& proxy::trojan_error(o) is None <==> server && port is Some && password is Some
            &&& proxy::plain_error("http"@, o) is None <==> server && port is Some && (user is Some
                <==> password is Some)
            &&& proxy::plain_error("socks5"@, o) is None <==> server && port is Some && (
            user is Some <==> password is Some)
            &&& proxy::server_error("anytls"@, name, o) is None <==> server && (port matches Some(
                n,
            ) && n % 0x1_0000 != 0) && password is Some
            &&& proxy::hysteria2_error(name, o) is None <==> server && (port matches Some(n) && n
                % 0x1_0000 != 0) && (password matches Some(t) && t.len() > 0)
        }),
{
}

/// Nameservers of a direct connection: an address with or without a port, which is 53
/// where none is given; without the option the usual ones are asked.
pub proof fn law_direct_connections_ask_their_nameservers(
    name: Seq<char>,
    p: Direct,
    o: Opts,
    s: String,
)
    requires
        proxy::direct_error(name, o) is None,
        proxy::direct_matches(p, o),
    ensures
        p.nameservers is None <==> yaml::option(o, "dns"@) is None,
        p.nameservers matches Some(v) ==> v@.len() > 0,
        yaml::option(o, "dns"@) == Some(Yaml::Text(s)) ==> (p.nameservers matches Some(v)
            && v@.len() == 1 && (net::socket(s@) matches Some(a) ==> v@[0] == a) && (net::socket(
            s@,
        ) is None ==> (net::ip(s@) matches Some(ip) && v@[0] == (SocketAddr {
            ip,
            port: 53,
            scope: 0,
        })))),
        yaml::option(o, "dns"@) matches Some(Yaml::Sequence(l)) ==> (p.nameservers matches Some(v)
            && v@.len() == yaml::texts(l@).len() && forall|i: int|
            0 <= i < v@.len() ==> proxy::nameserver(yaml::texts(l@)[i]) == Some(
                #[trigger] v@[i],
            )),
{
    if let Some(y) = yaml::option(o, "dns"@) {
        let e = proxy::dns_entries(y)->0;
        lemma_good(e, 0);
    }
}

proof fn lemma_good(e: Seq<Seq<char>>, from: int)
    requires
        0 <= from,
        proxy::first_bad(e, from) is None,
    ensures
        forall|i: int| from <= i < e.len() ==> proxy::nameserver(#[trigger] e[i]) is Some,
    decreases e.len() - from,
{
    if from < e.len() {
        lemma_good(e, from + 1);
    }
}

/// The options of a plugin are written as names with values, in order, with semicolons
/// between them; what is no simple value is left out.
pub proof fn law_plugin_options_are_written_in_order(
    a: Seq<(Yaml, Yaml)>,
    b: Seq<(Yaml, Yaml)>,
    k: String,
    s: String,
    n: u64,
    m: Vec<(Yaml, Yaml)>,
)
    ensures
        proxy::plugin_parts(a + b) == proxy::plugin_parts(a) + proxy::plugin_parts(b),
        proxy::plugin_parts(seq![(Yaml::Text(k), Yaml::Text(s))]) == seq![k@ + "="@ + s@],
        proxy::plugin_parts(seq![(Yaml::Text(k), Yaml::Bool(true))]) == seq![k@ + "="@ + "true"@],
        proxy::plugin_parts(seq![(Yaml::Text(k), Yaml::Bool(false))]) == seq![k@ + "="@ + "false"@],
        proxy::plugin_parts(seq![(Yaml::Text(k), Yaml::Null)]).len() == 0,
        proxy::plugin_text(Yaml::Text(s)) == Some(s@),
        proxy::plugin_parts(m@).len() > 0 ==> proxy::plugin_text(Yaml::Mapping(m)) == Some(
            text::joined(proxy::plugin_parts(m@), seq![';']),
        ),
        proxy::plugin_parts(m@).len() == 0 ==> proxy::plugin_text(Yaml::Mapping(m)) is None,
    decreases b.len(),
{
    reveal_strlit(";");
    assert(";"@ =~= seq![';']);
    lemma_one_part(Yaml::Text(k), Yaml::Text(s));
    lemma_one_part(Yaml::Text(k), Yaml::Bool(true));
    lemma_one_part(Yaml::Text(k), Yaml::Bool(false));
    lemma_one_part(Yaml::Text(k), Yaml::Null);
    let x = proxy::plugin_parts(a);
    if b.len() == 0 {
        assert(a + b =~= a);
        assert(x + proxy::plugin_parts(b) =~= x);
    } else {
        let r = b.drop_last();
        law_plugin_options_are_written_in_order(a, r, k, s, n, m);
        assert((a + b).drop_last() =~= a + r);
        assert((a + b).last() == b.last());
        if let Some(t) = proxy::plugin_part(b.last().0, b.last().1) {
            assert(x + proxy::plugin_parts(r).push(t) =~= (x + proxy::plugin_parts(r)).push(t));
        }
    }
}

proof fn lemma_one_part(k: Yaml, v: Yaml)
    ensures
        proxy::plugin_parts(seq![(k, v)]) == (match proxy::plugin_part(k, v) {
            Some(t) => seq![t],
            None => Seq::empty(),
        }),
{
    assert(seq![(k, v)].drop_last() =~= Seq::<(Yaml, Yaml)>::empty());
    assert(proxy::plugin_parts(Seq::empty()) =~= Seq::<Seq<char>>::empty());
    if let Some(t) = proxy::plugin_part(k, v) {
        assert(Seq::<Seq<char>>::empty().push(t) =~= seq![t]);
    }
}

proof fn lemma_networks()
    ensures
        "tcp"@ != "ws"@ && "tcp"@ != "grpc"@ && "tcp"@ != "h2"@ && "tcp"@ != "httpupgrade"@,
        "ws"@ != "grpc"@ && "ws"@ != "h2"@ && "ws"@ != "httpupgrade"@,
        "grpc"@ != "h2"@ && "grpc"@ != "httpupgrade"@ && "h2"@ != "httpupgrade"@,
        "xtls-rprx-vision"@ != ""@,
        ""@.len() == 0,
{
    reveal_strlit("tcp");
    reveal_strlit("ws");
    reveal_strlit("grpc");
    reveal_strlit("h2");
    reveal_strlit("httpupgrade");
    reveal_strlit("xtls-rprx-vision");
    reveal_strlit("");
    assert("tcp"@.len() == 3 && "ws"@.len() == 2 && "grpc"@.len() == 4 && "h2"@.len() == 2
        && "httpupgrade"@.len() == 11 && "xtls-rprx-vision"@.len() == 16 && ""@.len() == 0);
    assert("ws"@[0] == 'w' && "h2"@[0] == 'h');
}

/// What carries a connection to a server is what its network names, each name its own,
/// and plain TCP without one. Paths and hosts are those of the options of that network;
/// the path is `/` and the host is the server where none is given.
pub proof fn law_networks_name_transports(p: Vless, name: Seq<char>, o: Opts)
    requires
        vless::vless_error(name, o) is None,
        vless::vless_matches(p, name, o),
    ensures
        ({
            let n = yaml::str_option(o, "network"@);
            &&& p.transport is Tcp <==> n is None || n == Some("tcp"@)
            &&& p.transport is WebSocket <==> n == Some("ws"@)
            &&& p.transport is Grpc <==> n == Some("grpc"@)
            &&& p.transport is H2 <==> n == Some("h2"@)
            &&& p.transport is HttpUpgrade <==> n == Some("httpupgrade"@)
        }),
        (match p.transport {
            Transport::Tcp => true,
            Transport::WebSocket { path, host, max_early_data, early_data_header_name } => {
                let w = yaml::option(o, "ws-opts"@);
                let h = yaml::opt_str(yaml::opt_entry(yaml::opt_entry(w, "headers"@), "Host"@));
                let e = yaml::opt_u64(yaml::opt_entry(w, "max-early-data"@));
                &&& at_path(path@, w)
                &&& h matches Some(x) ==> host@ == x
                &&& h is None ==> host@ == p.server@
                &&& e matches Some(x) ==> max_early_data == x
                &&& e is None ==> max_early_data == 0
                &&& text::opt_view(early_data_header_name) == yaml::opt_str(
                    yaml::opt_entry(w, "early-data-header-name"@),
                )
            },
            Transport::Grpc { service_name, authority } => {
                let s = yaml::opt_str(
                    yaml::opt_entry(yaml::option(o, "grpc-opts"@), "grpc-service-name"@),
                );
                &&& s matches Some(x) ==> service_name@ == x
                &&& s is None ==> service_name@ == "GunService"@
                &&& authority@ == p.server@
            },
            Transport::H2 { path, hosts } => {
                let h = yaml::option(o, "h2-opts"@);
                &&& at_path(path@, h)
                &&& hosts@.len() > 0
                &&& yaml::opt_entry(h, "host"@) matches Some(Yaml::Sequence(l)) ==> text::views(
                    hosts@,
                ) == yaml::texts(l@)
                &&& !(yaml::opt_entry(h, "host"@) matches Some(Yaml::Sequence(_))) ==> text::views(
                    hosts@,
                ) == seq![p.server@]
            },
            Transport::HttpUpgrade { path, host, headers } => {
                let u = yaml::option(o, "http-upgrade-opts"@);
                let h = yaml::opt_str(yaml::opt_entry(u, "host"@));
                &&& at_path(path@, u)
                &&& h matches Some(x) ==> host@ == x
                &&& h is None ==> host@ == p.server@
                &&& yaml::pair_views(headers@) == yaml::opt_pairs(yaml::opt_entry(u, "headers"@))
            },
        }),
{
    lemma_networks();
    if let Transport::H2 { path, hosts } = p.transport {
        assert(text::views(hosts@).len() == hosts@.len());
    }
}

/// Whether a path is the one that options give, or `/`.
pub open spec fn at_path(path: Seq<char>, y: Option<Yaml>) -> bool {
    match yaml::opt_str(yaml::opt_entry(y, "path"@)) {
        Some(p) => path == p,
        None => path == "/"@,
    }
}

/// A server is reached through TLS exactly where its options ask for it. The name that is
/// asked for is the one that is given and not empty, else that of the server. Protocols
/// are those that are listed; a web socket without a list speaks HTTP/1.1.
pub proof fn law_tls_is_set_up_as_asked(p: Vless, name: Seq<char>, o: Opts)
    requires
        vless::vless_error(name, o) is None,
        vless::vless_matches(p, name, o),
    ensures
        p.tls is Some <==> yaml::flag(o, "tls"@),
        p.tls matches Some(t) ==> {
            let asked = yaml::str_option(o, "servername"@);
            let listed = match yaml::option(o, "alpn"@) {
                Some(Yaml::Sequence(l)) => yaml::texts(l@),
                _ => Seq::empty(),
            };
            &&& (asked matches Some(s) && s.len() > 0) ==> t.sni@ == asked->0
            &&& !(asked matches Some(s) && s.len() > 0) ==> t.sni@ == p.server@
            &&& t.skip_cert_verify == yaml::flag(o, "skip-cert-verify"@)
            &&& listed.len() > 0 ==> text::views(t.alpn@) == listed
            &&& listed.len() == 0 && p.transport is WebSocket ==> text::views(t.alpn@) == seq![
                "http/1.1"@,
            ]
            &&& listed.len() == 0 && !(p.transport is WebSocket) ==> text::views(t.alpn@).len() == 0
            &&& text::opt_view(t.fingerprint) == yaml::str_option(o, "client-fingerprint"@)
            &&& t.ech is Some ==> (yaml::option(o, "ech-opts"@) matches Some(y) && yaml::opt_bool(
                yaml::entry(y, "enable"@),
            ) == Some(true) && (yaml::opt_str(yaml::entry(y, "config"@)) matches Some(c)
                && codec::decodes_to(c, t.ech->0@)))
        },
{
    lemma_networks();
}

/// The flow of a server: splicing is on exactly where its flow is named, and only over
/// what encrypts. Datagrams are carried where that is asked for. What the user is warned
/// of is just what holds: traffic in the clear, multiplexing that is not done, and
/// datagrams that are not spliced.
pub proof fn law_flows_and_warnings(p: Vless, name: Seq<char>, o: Opts)
    requires
        vless::vless_error(name, o) is None,
        vless::vless_matches(p, name, o),
    ensures
        p.name@ == name,
        p.vision <==> yaml::str_option(o, "flow"@) == Some("xtls-rprx-vision"@),
        p.vision ==> p.tls is Some || p.transport is Grpc || p.transport is H2,
        p.udp == yaml::flag(o, "udp"@),
        yaml::str_option(o, "uuid"@) matches Some(u) && vless::is_uuid(u) && p.uuid@
            == vless::uuid_bytes(u),
        p.warnings@.contains(VlessWarning::Plaintext) <==> p.tls is None && !p.vision && !(
        p.transport is Grpc || p.transport is H2),
        p.warnings@.contains(VlessWarning::MuxIgnored) <==> yaml::opt_bool(
            yaml::opt_entry(yaml::option(o, "mux"@), "enabled"@),
        ) == Some(true),
        p.warnings@.contains(VlessWarning::VisionIsTcpOnly) <==> p.vision && p.udp,
        p.warnings@.no_duplicates(),
{
    lemma_networks();
    law_networks_name_transports(p, name, o);
    vless::law_uuid_is_hex(yaml::str_option(o, "uuid"@)->0);
    let w = vless::warnings_of(o);
    let vision = vless::flow_of(o) == "xtls-rprx-vision"@;
    let a = if !yaml::flag(o, "tls"@) && !vision && !vless::encrypts(vless::network_of(o)) {
        seq![VlessWarning::Plaintext]
    } else {
        Seq::empty()
    };
    if a.len() > 0 {
        assert(w[0] == VlessWarning::Plaintext);
    }
    if vless::mux_enabled(o) {
        assert(w[a.len() as int] == VlessWarning::MuxIgnored);
    }
    if vision && yaml::flag(o, "udp"@) {
        assert(w[w.len() - 1] == VlessWarning::VisionIsTcpOnly);
    }
}

/// When a server of this protocol is refused: where its address or its identity is
/// missing or wrong, where it asks for what is not supported, for another flow or one
/// that nothing encrypts, for keys that cannot be read, or for another network.
pub proof fn law_when_a_vless_server_is_refused(name: Seq<char>, o: Opts)
    ensures
        ({
            let server = yaml::str_option(o, "server"@);
            let uuid = yaml::str_option(o, "uuid"@);
            let flow = yaml::str_option(o, "flow"@);
            let network = yaml::str_option(o, "network"@);
            let cipher = yaml::str_option(o, "encryption"@);
            vless::vless_error(name, o) is None <==> {
                &&& server matches Some(s) && encode_utf8(s).len() <= 255
                &&& yaml::u64_option(o, "port"@) is Some
                &&& uuid matches Some(u) && vless::is_uuid(u)
                &&& yaml::option(o, "reality-opts"@) is None
                &&& cipher matches Some(c) ==> c == "none"@ || c == ""@
                &&& flow matches Some(f) ==> f == ""@ || (f == "xtls-rprx-vision"@ && (yaml::flag(
                    o,
                    "tls"@,
                ) || network == Some("grpc"@) || network == Some("h2"@)))
                &&& vless::tls_error(o) is None
                &&& network matches Some(n) ==> n == "tcp"@ || n == "ws"@ || n == "grpc"@ || n
                    == "httpupgrade"@ || (n == "h2"@ && vless::h2_hosts(o).len() > 0)
            }
        }),
{
    lemma_networks();
    if let Some(u) = yaml::str_option(o, "uuid"@) {
        vless::law_uuid_is_hex(u);
    }
}

/// A layer that cannot be built refuses a server only where the server has that layer.
pub proof fn law_only_layers_in_use_can_fail(
    p: Vless,
    tls: Result<(), String>,
    ws: Result<(), String>,
)
    ensures
        vless::layers_error(p, tls, ws) is Some <==> (p.tls is Some && tls is Err) || (
        p.transport is WebSocket && ws is Err),
{
}

/// The keys of a hidden hello are read only where the connection is encrypted and they
/// are asked for; they are refused exactly where they cannot be decoded.
pub proof fn law_when_keys_are_refused(o: Opts)
    ensures
        ({
            let y = yaml::option(o, "ech-opts"@);
            let asked = y matches Some(m) && yaml::opt_bool(yaml::entry(m, "enable"@)) == Some(
                true,
            );
            let given = yaml::opt_str(yaml::opt_entry(y, "config"@));
            &&& vless::tls_error(o) is Some <==> yaml::flag(o, "tls"@) && asked && (
            given matches Some(t) && codec::base64_decoded(t) is Err)
            &&& asked ==> vless::ech_text(o) == given
            &&& !asked ==> vless::ech_text(o) is None
        }),
{
}

} // verus!
