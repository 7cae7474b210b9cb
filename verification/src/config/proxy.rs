//! Outbound proxies: what the options of a proxy say.

use crate::config::yaml;
use crate::config::yaml::{Options, Yaml};
use crate::net;
use crate::net::SocketAddr;
use crate::number;
use crate::text;
use vstd::prelude::*;
use vstd::string::*;
use vstd::utf8::*;

verus! {

/// The options of a proxy as a sequence.
pub type Opts = Seq<(String, Yaml)>;

/// A Shadowsocks server.
#[derive(Clone, Debug)]
pub struct Shadowsocks {
    pub name: String,
    pub server: String,
    pub port: u16,
    pub password: String,
    pub cipher: String,
    pub udp: bool,
    pub plugin: Option<String>,
    pub plugin_opts: Option<String>,
}

/// A Trojan server.
#[derive(Clone, Debug)]
pub struct Trojan {
    pub name: String,
    pub server: String,
    pub port: u16,
    pub password: String,
    pub sni: String,
    pub skip_cert_verify: bool,
    pub udp: bool,
}

/// An HTTP proxy.
#[derive(Clone, Debug)]
pub struct HttpProxy {
    pub name: String,
    pub server: String,
    pub port: u16,
    pub auth: Option<(String, String)>,
    pub tls: bool,
    pub skip_cert_verify: bool,
    /// Sent with the CONNECT request only.
    pub headers: Vec<(String, String)>,
}

/// A SOCKS5 proxy.
#[derive(Clone, Debug)]
pub struct Socks5Proxy {
    pub name: String,
    pub server: String,
    pub port: u16,
    pub auth: Option<(String, String)>,
    pub tls: bool,
    pub skip_cert_verify: bool,
    /// Whether datagrams were asked for, which is not supported.
    pub udp_ignored: bool,
}

/// No proxy at all, with nameservers of its own if any are given.
#[derive(Clone, Debug)]
pub struct Direct {
    pub nameservers: Option<Vec<SocketAddr>>,
}

/// A server that needs a password and nothing else: AnyTLS and Hysteria 2.
#[derive(Clone, Debug)]
pub struct PasswordServer {
    pub name: String,
    pub server: String,
    pub port: u16,
    pub password: String,
    pub sni: Option<String>,
    pub skip_cert_verify: bool,
}

/// The port of a proxy: the low 16 bits of the number.
pub open spec fn port_of(n: u64) -> u16 {
    (n % 0x1_0000) as u16
}

/// The views of an optional pair of texts.
pub open spec fn auth_view(a: Option<(String, String)>) -> Option<(Seq<char>, Seq<char>)> {
    match a {
        Some((u, p)) => Some((u@, p@)),
        None => None,
    }
}

/// What stands for one entry of a mapping of plugin options.
pub open spec fn plugin_part(k: Yaml, v: Yaml) -> Option<Seq<char>> {
    match yaml::str_of(k) {
        None => None,
        Some(key) => match v {
            Yaml::Text(s) => Some(key + "="@ + s@),
            Yaml::Bool(b) => Some(key + "="@ + if b {
                "true"@
            } else {
                "false"@
            }),
            Yaml::Number(n) => Some(key + "="@ + yaml::number_text(n)),
            _ => None,
        },
    }
}

/// The parts of a mapping of plugin options; entries that are neither text, nor
/// flags, nor numbers are left out.
pub open spec fn plugin_parts(m: Seq<(Yaml, Yaml)>) -> Seq<Seq<char>>
    decreases m.len(),
{
    if m.len() == 0 {
        Seq::empty()
    } else {
        match plugin_part(m.last().0, m.last().1) {
            Some(t) => plugin_parts(m.drop_last()).push(t),
            None => plugin_parts(m.drop_last()),
        }
    }
}

/// The semicolon-separated form of plugin options.
pub open spec fn plugin_text(y: Yaml) -> Option<Seq<char>> {
    match y {
        Yaml::Text(s) => Some(s@),
        Yaml::Mapping(m) => if plugin_parts(m@).len() == 0 {
            None
        } else {
            Some(text::joined(plugin_parts(m@), ";"@))
        },
        _ => None,
    }
}

fn serialize_plugin_part(k: &Yaml, v: &Yaml) -> (r: Option<String>)
    ensures
        text::opt_view(r) == plugin_part(*k, *v),
{
    let key = match k {
        Yaml::Text(key) => key,
        _ => {
            return None;
        },
    };
    let start = key.clone().concat("=");
    match v {
        Yaml::Text(s) => Some(start.concat(s.as_str())),
        Yaml::Bool(b) => Some(
            start.concat(
                if *b {
                    "true"
                } else {
                    "false"
                },
            ),
        ),
        Yaml::Number(n) => Some(start.concat(yaml::format_number(n).as_str())),
        _ => None,
    }
}

/// Converts plugin options to their semicolon-separated form.
pub fn serialize_plugin_opts(opts: &Yaml) -> (r: Option<String>)
    ensures
        text::opt_view(r) == plugin_text(*opts),
{
    match opts {
        Yaml::Text(s) => Some(s.clone()),
        Yaml::Mapping(m) => {
            let mut out = text::no_strings();
            let mut i: usize = 0;
            while i < m.len()
                invariant
                    i <= m@.len(),
                    text::views(out@) == plugin_parts(m@.take(i as int)),
                decreases m@.len() - i,
            {
                assert(m@.take(i + 1).drop_last() == m@.take(i as int));
                if let Some(t) = serialize_plugin_part(&m[i].0, &m[i].1) {
                    text::push_string(&mut out, t);
                }
                i += 1;
            }
            assert(m@.take(i as int) == m@);
            assert(text::views(out@).len() == out@.len());
            if out.len() == 0 {
                None
            } else {
                Some(text::join(&out, ";"))
            }
        },
        _ => None,
    }
}

/// Why the options of a Shadowsocks server cannot be used.
pub open spec fn ss_error(o: Opts) -> Option<Seq<char>> {
    if yaml::str_option(o, "server"@) is None {
        Some("missing server"@)
    } else if yaml::u64_option(o, "port"@) is None {
        Some("missing port"@)
    } else if yaml::str_option(o, "password"@) is None {
        Some("missing password"@)
    } else if yaml::str_option(o, "cipher"@) is None {
        Some("missing cipher"@)
    } else {
        None
    }
}

/// Whether a Shadowsocks server is what its options say.
pub open spec fn ss_matches(p: Shadowsocks, name: Seq<char>, o: Opts) -> bool {
    &&& p.name@ == name
    &&& yaml::str_option(o, "server"@) == Some(p.server@)
    &&& p.port == port_of(yaml::u64_option(o, "port"@)->0)
    &&& yaml::str_option(o, "password"@) == Some(p.password@)
    &&& yaml::str_option(o, "cipher"@) == Some(p.cipher@)
    &&& p.udp == yaml::flag(o, "udp"@)
    &&& text::opt_view(p.plugin) == yaml::str_option(o, "plugin"@)
    &&& text::opt_view(p.plugin_opts) == (match yaml::option(o, "plugin-opts"@) {
        Some(y) => plugin_text(y),
        None => None,
    })
}

/// An owned copy of an optional text.
fn own(s: Option<&str>) -> (r: Option<String>)
    ensures
        (match s {
            Some(t) => r matches Some(x) && x@ == t@,
            None => r is None,
        }),
{
    match s {
        Some(t) => Some(t.to_owned()),
        None => None,
    }
}

/// Reads the options of a Shadowsocks server.
pub fn parse_ss(name: &str, o: &Options) -> (r: Result<Shadowsocks, String>)
    ensures
        (match r {
            Ok(p) => ss_error(o@) is None && ss_matches(p, name@, o@),
            Err(e) => ss_error(o@) == Some(e@),
        }),
{
    let server = match yaml::get_str_option(o, "server") {
        Some(s) => s,
        None => {
            return Err("missing server".to_owned());
        },
    };
    let port: u64 = match yaml::get_u64_option(o, "port") {
        Some(p) => p,
        None => {
            return Err("missing port".to_owned());
        },
    };
    let password = match yaml::get_str_option(o, "password") {
        Some(s) => s,
        None => {
            return Err("missing password".to_owned());
        },
    };
    let cipher = match yaml::get_str_option(o, "cipher") {
        Some(s) => s,
        None => {
            return Err("missing cipher".to_owned());
        },
    };
    let plugin_opts = match yaml::get_option(o, "plugin-opts") {
        Some(y) => serialize_plugin_opts(y),
        None => None,
    };
    Ok(
        Shadowsocks {
            name: name.to_owned(),
            server: server.to_owned(),
            port: (port % 0x1_0000) as u16,
            password: password.to_owned(),
            cipher: cipher.to_owned(),
            udp: yaml::get_flag(o, "udp"),
            plugin: own(yaml::get_str_option(o, "plugin")),
            plugin_opts,
        },
    )
}

/// Why the options of a Trojan server cannot be used.
pub open spec fn trojan_error(o: Opts) -> Option<Seq<char>> {
    if yaml::str_option(o, "server"@) is None {
        Some("missing server"@)
    } else if yaml::u64_option(o, "port"@) is None {
        Some("missing port"@)
    } else if yaml::str_option(o, "password"@) is None {
        Some("missing password"@)
    } else {
        None
    }
}

/// Whether a Trojan server is what its options say.
pub open spec fn trojan_matches(p: Trojan, name: Seq<char>, o: Opts) -> bool {
    &&& p.name@ == name
    &&& yaml::str_option(o, "server"@) == Some(p.server@)
    &&& p.port == port_of(yaml::u64_option(o, "port"@)->0)
    &&& yaml::str_option(o, "password"@) == Some(p.password@)
    &&& p.sni@ == (match yaml::str_option(o, "sni"@) {
        Some(s) => s,
        None => ""@,
    })
    &&& p.skip_cert_verify == yaml::flag(o, "skip-cert-verify"@)
    &&& p.udp == yaml::flag(o, "udp"@)
}

/// Reads the options of a Trojan server.
pub fn parse_trojan(name: &str, o: &Options) -> (r: Result<Trojan, String>)
    ensures
        (match r {
            Ok(p) => trojan_error(o@) is None && trojan_matches(p, name@, o@),
            Err(e) => trojan_error(o@) == Some(e@),
        }),
{
    let server = match yaml::get_str_option(o, "server") {
        Some(s) => s,
        None => {
            return Err("missing server".to_owned());
        },
    };
    let port: u64 = match yaml::get_u64_option(o, "port") {
        Some(p) => p,
        None => {
            return Err("missing port".to_owned());
        },
    };
    let password = match yaml::get_str_option(o, "password") {
        Some(s) => s,
        None => {
            return Err("missing password".to_owned());
        },
    };
    let sni = match yaml::get_str_option(o, "sni") {
        Some(s) => s,
        None => "",
    };
    Ok(
        Trojan {
            name: name.to_owned(),
            server: server.to_owned(),
            port: (port % 0x1_0000) as u16,
            password: password.to_owned(),
            sni: sni.to_owned(),
            skip_cert_verify: yaml::get_flag(o, "skip-cert-verify"),
            udp: yaml::get_flag(o, "udp"),
        },
    )
}

/// Whether exactly one of user name and password is given.
pub open spec fn half_auth(o: Opts) -> bool {
    yaml::str_option(o, "username"@) is Some != yaml::str_option(o, "password"@) is Some
}

/// The user name and password, if both are given.
pub open spec fn auth_of(o: Opts) -> Option<(Seq<char>, Seq<char>)> {
    match (yaml::str_option(o, "username"@), yaml::str_option(o, "password"@)) {
        (Some(u), Some(p)) => Some((u, p)),
        _ => None,
    }
}

/// Why the options of an HTTP or SOCKS5 proxy cannot be used.
pub open spec fn plain_error(kind: Seq<char>, o: Opts) -> Option<Seq<char>> {
    if yaml::str_option(o, "server"@) is None {
        Some(kind + ": missing server"@)
    } else if yaml::u64_option(o, "port"@) is None {
        Some(kind + ": missing port"@)
    } else if half_auth(o) {
        Some(kind + ": both 'username' and 'password' must be set, or neither"@)
    } else {
        None
    }
}

fn read_auth(o: &Options) -> (r: Result<Option<(String, String)>, ()>)
    ensures
        (match r {
            Ok(a) => !half_auth(o@) && auth_view(a) == auth_of(o@),
            Err(_) => half_auth(o@),
        }),
{
    match (yaml::get_str_option(o, "username"), yaml::get_str_option(o, "password")) {
        (Some(u), Some(p)) => Ok(Some((u.to_owned(), p.to_owned()))),
        (None, None) => Ok(None),
        _ => Err(()),
    }
}

/// Whether an HTTP proxy is what its options say.
pub open spec fn http_matches(p: HttpProxy, name: Seq<char>, o: Opts) -> bool {
    &&& p.name@ == name
    &&& yaml::str_option(o, "server"@) == Some(p.server@)
    &&& p.port == port_of(yaml::u64_option(o, "port"@)->0)
    &&& auth_view(p.auth) == auth_of(o)
    &&& p.tls == yaml::flag(o, "tls"@)
    &&& p.skip_cert_verify == yaml::flag(o, "skip-cert-verify"@)
    &&& yaml::pair_views(p.headers@) == yaml::opt_pairs(yaml::option(o, "headers"@))
}

/// Reads the options of an HTTP proxy.
pub fn parse_http(name: &str, o: &Options) -> (r: Result<HttpProxy, String>)
    ensures
        (match r {
            Ok(p) => plain_error("http"@, o@) is None && http_matches(p, name@, o@),
            Err(e) => plain_error("http"@, o@) == Some(e@),
        }),
{
    let server = match yaml::get_str_option(o, "server") {
        Some(s) => s,
        None => {
            return Err("http".to_owned().concat(": missing server"));
        },
    };
    let port: u64 = match yaml::get_u64_option(o, "port") {
        Some(p) => p,
        None => {
            return Err("http".to_owned().concat(": missing port"));
        },
    };
    let auth = match read_auth(o) {
        Ok(a) => a,
        Err(_) => {
            return Err(
                "http".to_owned().concat(
                    ": both 'username' and 'password' must be set, or neither",
                ),
            );
        },
    };
    Ok(
        HttpProxy {
            name: name.to_owned(),
            server: server.to_owned(),
            port: (port % 0x1_0000) as u16,
            auth,
            tls: yaml::get_flag(o, "tls"),
            skip_cert_verify: yaml::get_flag(o, "skip-cert-verify"),
            headers: yaml::get_pairs(yaml::get_option(o, "headers")),
        },
    )
}

/// Whether a SOCKS5 proxy is what its options say.
pub open spec fn socks5_matches(p: Socks5Proxy, name: Seq<char>, o: Opts) -> bool {
    &&& p.name@ == name
    &&& yaml::str_option(o, "server"@) == Some(p.server@)
    &&& p.port == port_of(yaml::u64_option(o, "port"@)->0)
    &&& auth_view(p.auth) == auth_of(o)
    &&& p.tls == yaml::flag(o, "tls"@)
    &&& p.skip_cert_verify == yaml::flag(o, "skip-cert-verify"@)
    &&& p.udp_ignored == yaml::flag(o, "udp"@)
}

/// Reads the options of a SOCKS5 proxy.
pub fn parse_socks5(name: &str, o: &Options) -> (r: Result<Socks5Proxy, String>)
    ensures
        (match r {
            Ok(p) => plain_error("socks5"@, o@) is None && socks5_matches(p, name@, o@),
            Err(e) => plain_error("socks5"@, o@) == Some(e@),
        }),
{
    let server = match yaml::get_str_option(o, "server") {
        Some(s) => s,
        None => {
            return Err("socks5".to_owned().concat(": missing server"));
        },
    };
    let port: u64 = match yaml::get_u64_option(o, "port") {
        Some(p) => p,
        None => {
            return Err("socks5".to_owned().concat(": missing port"));
        },
    };
    let auth = match read_auth(o) {
        Ok(a) => a,
        Err(_) => {
            return Err(
                "socks5".to_owned().concat(
                    ": both 'username' and 'password' must be set, or neither",
                ),
            );
        },
    };
    Ok(
        Socks5Proxy {
            name: name.to_owned(),
            server: server.to_owned(),
            port: (port % 0x1_0000) as u16,
            auth,
            tls: yaml::get_flag(o, "tls"),
            skip_cert_verify: yaml::get_flag(o, "skip-cert-verify"),
            udp_ignored: yaml::get_flag(o, "udp"),
        },
    )
}

/// A nameserver: an address with a port, or an address alone with port 53.
pub open spec fn nameserver(s: Seq<char>) -> Option<SocketAddr> {
    match net::socket(s) {
        Some(a) => Some(a),
        None => match net::ip(s) {
            Some(ip) => Some(SocketAddr { ip, port: 53, scope: 0 }),
            None => None,
        },
    }
}

/// The texts of a `dns:` option that is text or a list of texts.
pub open spec fn dns_entries(y: Yaml) -> Option<Seq<Seq<char>>> {
    match y {
        Yaml::Text(s) => Some(seq![s@]),
        Yaml::Sequence(v) => if crate::config::raw::all_texts(v@) {
            Some(yaml::texts(v@))
        } else {
            None
        },
        _ => None,
    }
}

/// The start of the messages about a direct proxy.
pub open spec fn direct_prefix(name: Seq<char>) -> Seq<char> {
    "direct["@ + name + "]: "@
}

/// The position of the first entry that is no nameserver.
pub open spec fn first_bad(e: Seq<Seq<char>>, from: int) -> Option<int>
    decreases e.len() - from,
{
    if from < 0 || from >= e.len() {
        None
    } else if nameserver(e[from]) is None {
        Some(from)
    } else {
        first_bad(e, from + 1)
    }
}

/// Why the options of a direct proxy cannot be used.
pub open spec fn direct_error(name: Seq<char>, o: Opts) -> Option<Seq<char>> {
    match yaml::option(o, "dns"@) {
        None => None,
        Some(y) => match dns_entries(y) {
            None => if y is Sequence {
                Some(direct_prefix(name) + "dns entries must be strings"@)
            } else {
                Some(direct_prefix(name) + "dns must be a string or list of strings"@)
            },
            Some(e) => match first_bad(e, 0) {
                Some(i) => Some(
                    direct_prefix(name) + "dns entry '"@ + e[i]
                        + "' is not a valid IP or host:port"@,
                ),
                None => if e.len() == 0 {
                    Some(direct_prefix(name) + "dns list is empty"@)
                } else {
                    None
                },
            },
        },
    }
}

/// Whether a direct proxy is what its options say.
pub open spec fn direct_matches(p: Direct, o: Opts) -> bool {
    match yaml::option(o, "dns"@) {
        None => p.nameservers is None,
        Some(y) => {
            let e = dns_entries(y)->0;
            p.nameservers matches Some(v) && v@ == e.map_values(
                |s: Seq<char>| nameserver(s)->0,
            )
        },
    }
}

fn parse_nameserver(s: &str) -> (r: Option<SocketAddr>)
    ensures
        r == nameserver(s@),
{
    match net::parse_socket(s) {
        Some(a) => Some(a),
        None => match net::parse_ip(s) {
            Some(ip) => Some(SocketAddr { ip, port: 53, scope: 0 }),
            None => None,
        },
    }
}

/// Reads the options of a direct proxy. A nameserver that cannot be read is an
/// error: falling back to the general resolver would leak queries.
pub fn parse_direct(name: &str, o: &Options) -> (r: Result<Direct, String>)
    ensures
        (match r {
            Ok(p) => direct_error(name@, o@) is None && direct_matches(p, o@),
            Err(e) => direct_error(name@, o@) == Some(e@),
        }),
{
    let y = match yaml::get_option(o, "dns") {
        Some(y) => y,
        None => {
            return Ok(Direct { nameservers: None });
        },
    };
    let prefix = "direct[".to_owned().concat(name).concat("]: ");
    let entries = match y {
        Yaml::Text(_) | Yaml::Sequence(_) => {
            match crate::config::raw::parse_string_or_seq(y) {
                Ok(Some(v)) => v,
                _ => {
                    return Err(prefix.concat("dns entries must be strings"));
                },
            }
        },
        _ => {
            return Err(prefix.concat("dns must be a string or list of strings"));
        },
    };
    let ghost e = text::views(entries@);
    assert(dns_entries(*y) == Some(e));
    let mut servers: Vec<SocketAddr> = Vec::new();
    let mut i: usize = 0;
    while i < entries.len()
        invariant
            i <= entries@.len(),
            e == text::views(entries@),
            yaml::option(o@, "dns"@) == Some(*y),
            dns_entries(*y) == Some(e),
            prefix@ == direct_prefix(name@),
            first_bad(e, 0) == first_bad(e, i as int),
            servers@ == e.take(i as int).map_values(|s: Seq<char>| nameserver(s)->0),
        decreases entries@.len() - i,
    {
        assert(e[i as int] == entries@[i as int]@);
        match parse_nameserver(entries[i].as_str()) {
            Some(a) => {
                servers.push(a);
                assert(servers@ =~= e.take(i + 1).map_values(|s: Seq<char>| nameserver(s)->0));
            },
            None => {
                assert(first_bad(e, 0) == Some(i as int));
                return Err(
                    prefix.concat("dns entry '").concat(entries[i].as_str()).concat(
                        "' is not a valid IP or host:port",
                    ),
                );
            },
        }
        i += 1;
    }
    assert(e.take(i as int) == e);
    if servers.len() == 0 {
        return Err(prefix.concat("dns list is empty"));
    }
    Ok(Direct { nameservers: Some(servers) })
}

/// The start of the messages about a server with a password.
pub open spec fn server_prefix(kind: Seq<char>, name: Seq<char>) -> Seq<char> {
    kind + "["@ + name + "]: "@
}

/// Why the options of a server with a password cannot be used.
pub open spec fn server_error(kind: Seq<char>, name: Seq<char>, o: Opts) -> Option<Seq<char>> {
    if yaml::str_option(o, "server"@) is None {
        Some(server_prefix(kind, name) + "missing server"@)
    } else if yaml::u64_option(o, "port"@) is None {
        Some(server_prefix(kind, name) + "missing port"@)
    } else if port_of(yaml::u64_option(o, "port"@)->0) == 0 {
        Some(server_prefix(kind, name) + "port must be non-zero"@)
    } else if yaml::str_option(o, "password"@) is None {
        Some(server_prefix(kind, name) + "missing password"@)
    } else {
        None
    }
}

/// Why the options of a Hysteria 2 server cannot be used.
pub open spec fn hysteria2_error(name: Seq<char>, o: Opts) -> Option<Seq<char>> {
    match server_error("hysteria2"@, name, o) {
        Some(e) => Some(e),
        None => if (yaml::str_option(o, "password"@)->0).len() == 0 {
            Some(server_prefix("hysteria2"@, name) + "password must not be empty"@)
        } else {
            None
        },
    }
}

/// Whether a server with a password is what its options say.
pub open spec fn server_matches(p: PasswordServer, name: Seq<char>, o: Opts) -> bool {
    &&& p.name@ == name
    &&& yaml::str_option(o, "server"@) == Some(p.server@)
    &&& p.port == port_of(yaml::u64_option(o, "port"@)->0)
    &&& yaml::str_option(o, "password"@) == Some(p.password@)
    &&& text::opt_view(p.sni) == yaml::str_option(o, "sni"@)
    &&& p.skip_cert_verify == yaml::flag(o, "skip-cert-verify"@)
}

fn parse_server(kind: &str, name: &str, o: &Options) -> (r: Result<PasswordServer, String>)
    ensures
        (match r {
            Ok(p) => server_error(kind@, name@, o@) is None && server_matches(p, name@, o@),
            Err(e) => server_error(kind@, name@, o@) == Some(e@),
        }),
{
    let prefix = kind.to_owned().concat("[").concat(name).concat("]: ");
    let server = match yaml::get_str_option(o, "server") {
        Some(s) => s,
        None => {
            return Err(prefix.concat("missing server"));
        },
    };
    let port: u64 = match yaml::get_u64_option(o, "port") {
        Some(p) => p,
        None => {
            return Err(prefix.concat("missing port"));
        },
    };
    let port: u16 = (port % 0x1_0000) as u16;
    if port == 0 {
        return Err(prefix.concat("port must be non-zero"));
    }
    let password = match yaml::get_str_option(o, "password") {
        Some(s) => s,
        None => {
            return Err(prefix.concat("missing password"));
        },
    };
    Ok(
        PasswordServer {
            name: name.to_owned(),
            server: server.to_owned(),
            port,
            password: password.to_owned(),
            sni: own(yaml::get_str_option(o, "sni")),
            skip_cert_verify: yaml::get_flag(o, "skip-cert-verify"),
        },
    )
}

/// Reads the options of an AnyTLS server.
pub fn parse_anytls(name: &str, o: &Options) -> (r: Result<PasswordServer, String>)
    ensures
        (match r {
            Ok(p) => server_error("anytls"@, name@, o@) is None && server_matches(p, name@, o@),
            Err(e) => server_error("anytls"@, name@, o@) == Some(e@),
        }),
{
    parse_server("anytls", name, o)
}

/// Reads the options of a Hysteria 2 server.
pub fn parse_hysteria2(name: &str, o: &Options) -> (r: Result<PasswordServer, String>)
    ensures
        (match r {
            Ok(p) => hysteria2_error(name@, o@) is None && server_matches(p, name@, o@),
            Err(e) => hysteria2_error(name@, o@) == Some(e@),
        }),
{
    match parse_server("hysteria2", name, o) {
        Err(e) => Err(e),
        Ok(p) => {
            if p.password.as_str().is_empty() {
                Err(
                    "hysteria2".to_owned().concat("[").concat(name).concat("]: ").concat(
                        "password must not be empty",
                    ),
                )
            } else {
                Ok(p)
            }
        },
    }
}

} // verus!
