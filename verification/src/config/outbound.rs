//! Any outbound proxy, chosen by its `type:`.

use crate::config::proxy;
use crate::config::proxy::{
    Direct, HttpProxy, Opts, PasswordServer, Shadowsocks, Socks5Proxy, Trojan,
};
use crate::config::vless;
use crate::config::vless::Vless;
use crate::config::yaml;
use crate::config::yaml::Options;
use crate::text;
use vstd::prelude::*;
use vstd::string::*;

verus! {

/// An outbound proxy.
#[derive(Clone, Debug)]
pub enum Outbound {
    Shadowsocks(Shadowsocks),
    Trojan(Trojan),
    Vless(Vless),
    Http(HttpProxy),
    Socks5(Socks5Proxy),
    Direct(Direct),
    AnyTls(PasswordServer),
    Hysteria2(PasswordServer),
}

/// A proxy that can be registered.
#[derive(Clone, Debug)]
pub struct WrappedProxy {
    adapter: Outbound,
}

impl WrappedProxy {
    /// What the proxy wraps.
    pub closed spec fn inner(self) -> Outbound {
        self.adapter
    }

    /// Wraps an outbound.
    pub fn new(adapter: Outbound) -> (p: WrappedProxy)
        ensures
            p.inner() == adapter,
    {
        WrappedProxy { adapter }
    }

    /// The outbound that is wrapped.
    pub fn adapter(&self) -> (r: &Outbound)
        ensures
            *r == self.inner(),
    {
        &self.adapter
    }

    /// The name that the proxy gives itself. A direct proxy has a fixed one.
    pub fn name(&self) -> (s: &str)
        ensures
            s@ == own_name(self.inner()),
    {
        match &self.adapter {
            Outbound::Shadowsocks(p) => p.name.as_str(),
            Outbound::Trojan(p) => p.name.as_str(),
            Outbound::Vless(p) => p.name.as_str(),
            Outbound::Http(p) => p.name.as_str(),
            Outbound::Socks5(p) => p.name.as_str(),
            Outbound::Direct(_) => "DIRECT",
            Outbound::AnyTls(p) => p.name.as_str(),
            Outbound::Hysteria2(p) => p.name.as_str(),
        }
    }
}

/// The name that an outbound gives itself.
pub open spec fn own_name(o: Outbound) -> Seq<char> {
    match o {
        Outbound::Shadowsocks(p) => p.name@,
        Outbound::Trojan(p) => p.name@,
        Outbound::Vless(p) => p.name@,
        Outbound::Http(p) => p.name@,
        Outbound::Socks5(p) => p.name@,
        Outbound::Direct(_) => "DIRECT"@,
        Outbound::AnyTls(p) => p.name@,
        Outbound::Hysteria2(p) => p.name@,
    }
}

/// The kinds of proxies.
#[derive(Clone, Copy, Debug, PartialEq, Eq, Structural)]
pub enum ProxyKind {
    Shadowsocks,
    Trojan,
    Vless,
    Http,
    Socks5,
    Direct,
    AnyTls,
    Hysteria2,
}

/// The kind that a `type:` names.
pub open spec fn kind_of(t: Seq<char>) -> Option<ProxyKind> {
    if t == "ss"@ {
        Some(ProxyKind::Shadowsocks)
    } else if t == "trojan"@ {
        Some(ProxyKind::Trojan)
    } else if t == "vless"@ {
        Some(ProxyKind::Vless)
    } else if t == "http"@ {
        Some(ProxyKind::Http)
    } else if t == "socks5"@ {
        Some(ProxyKind::Socks5)
    } else if t == "direct"@ {
        Some(ProxyKind::Direct)
    } else if t == "anytls"@ {
        Some(ProxyKind::AnyTls)
    } else if t == "hysteria2"@ {
        Some(ProxyKind::Hysteria2)
    } else {
        None
    }
}

fn read_kind(t: &str) -> (k: Option<ProxyKind>)
    ensures
        k == kind_of(t@),
{
    if text::same(t, "ss") {
        Some(ProxyKind::Shadowsocks)
    } else if text::same(t, "trojan") {
        Some(ProxyKind::Trojan)
    } else if text::same(t, "vless") {
        Some(ProxyKind::Vless)
    } else if text::same(t, "http") {
        Some(ProxyKind::Http)
    } else if text::same(t, "socks5") {
        Some(ProxyKind::Socks5)
    } else if text::same(t, "direct") {
        Some(ProxyKind::Direct)
    } else if text::same(t, "anytls") {
        Some(ProxyKind::AnyTls)
    } else if text::same(t, "hysteria2") {
        Some(ProxyKind::Hysteria2)
    } else {
        None
    }
}

/// What is said of a proxy with keys for an encrypted hello: to leave the keys out would
/// show in the open what the user wants hidden.
pub const NO_HIDDEN_HELLOS: &'static str = "encrypted client hellos are not supported";

/// Why the options of a proxy cannot be used.
pub open spec fn proxy_error(o: Opts) -> Option<Seq<char>> {
    match (yaml::str_option(o, "name"@), yaml::str_option(o, "type"@)) {
        (None, _) => Some("missing proxy name"@),
        (_, None) => Some("missing proxy type"@),
        (Some(name), Some(t)) => match kind_of(t) {
            None => Some("unsupported proxy type: "@ + t),
            Some(ProxyKind::Shadowsocks) => proxy::ss_error(o),
            Some(ProxyKind::Trojan) => proxy::trojan_error(o),
            Some(ProxyKind::Vless) => match vless::vless_error(name, o) {
                Some(e) => Some(e),
                None => if vless::hides_hello(o) {
                    Some("vless: TLS layer error: "@ + NO_HIDDEN_HELLOS@)
                } else {
                    None
                },
            },
            Some(ProxyKind::Http) => proxy::plain_error("http"@, o),
            Some(ProxyKind::Socks5) => proxy::plain_error("socks5"@, o),
            Some(ProxyKind::Direct) => proxy::direct_error(name, o),
            Some(ProxyKind::AnyTls) => proxy::server_error("anytls"@, name, o),
            Some(ProxyKind::Hysteria2) => proxy::hysteria2_error(name, o),
        },
    }
}

/// Whether an outbound is what its options say.
pub open spec fn proxy_matches(p: Outbound, o: Opts) -> bool {
    let name = yaml::str_option(o, "name"@)->0;
    match kind_of(yaml::str_option(o, "type"@)->0) {
        Some(ProxyKind::Shadowsocks) => p matches Outbound::Shadowsocks(x) && proxy::ss_matches(
            x,
            name,
            o,
        ),
        Some(ProxyKind::Trojan) => p matches Outbound::Trojan(x) && proxy::trojan_matches(
            x,
            name,
            o,
        ),
        Some(ProxyKind::Vless) => p matches Outbound::Vless(x) && vless::vless_matches(x, name, o),
        Some(ProxyKind::Http) => p matches Outbound::Http(x) && proxy::http_matches(x, name, o),
        Some(ProxyKind::Socks5) => p matches Outbound::Socks5(x) && proxy::socks5_matches(
            x,
            name,
            o,
        ),
        Some(ProxyKind::Direct) => p matches Outbound::Direct(x) && proxy::direct_matches(x, o),
        Some(ProxyKind::AnyTls) => p matches Outbound::AnyTls(x) && proxy::server_matches(
            x,
            name,
            o,
        ),
        Some(ProxyKind::Hysteria2) => p matches Outbound::Hysteria2(x) && proxy::server_matches(
            x,
            name,
            o,
        ),
        None => false,
    }
}

/// Reads the options of a proxy.
pub fn parse_proxy(o: &Options) -> (r: Result<WrappedProxy, String>)
    ensures
        (match r {
            Ok(p) => proxy_error(o@) is None && proxy_matches(p.inner(), o@),
            Err(e) => proxy_error(o@) == Some(e@),
        }),
{
    let name = match yaml::get_str_option(o, "name") {
        Some(n) => n,
        None => {
            return Err("missing proxy name".to_owned());
        },
    };
    let proxy_type = match yaml::get_str_option(o, "type") {
        Some(t) => t,
        None => {
            return Err("missing proxy type".to_owned());
        },
    };
    let outbound = match read_kind(proxy_type) {
        None => {
            return Err("unsupported proxy type: ".to_owned().concat(proxy_type));
        },
        Some(ProxyKind::Shadowsocks) => match proxy::parse_ss(name, o) {
            Ok(p) => Outbound::Shadowsocks(p),
            Err(e) => {
                return Err(e);
            },
        },
        Some(ProxyKind::Trojan) => match proxy::parse_trojan(name, o) {
            Ok(p) => Outbound::Trojan(p),
            Err(e) => {
                return Err(e);
            },
        },
        Some(ProxyKind::Vless) => match vless::parse_vless(name, o) {
            Ok(p) => {
                let keys = match &p.tls {
                    Some(t) => t.ech.is_some(),
                    None => false,
                };
                let layer = if keys {
                    Err(NO_HIDDEN_HELLOS.to_owned())
                } else {
                    Ok(())
                };
                match vless::with_layers(p, layer, Ok(())) {
                    Ok(p) => Outbound::Vless(p),
                    Err(e) => {
                        return Err(e);
                    },
                }
            },
            Err(e) => {
                return Err(e);
            },
        },
        Some(ProxyKind::Http) => match proxy::parse_http(name, o) {
            Ok(p) => Outbound::Http(p),
            Err(e) => {
                return Err(e);
            },
        },
        Some(ProxyKind::Socks5) => match proxy::parse_socks5(name, o) {
            Ok(p) => Outbound::Socks5(p),
            Err(e) => {
                return Err(e);
            },
        },
        Some(ProxyKind::Direct) => match proxy::parse_direct(name, o) {
            Ok(p) => Outbound::Direct(p),
            Err(e) => {
                return Err(e);
            },
        },
        Some(ProxyKind::AnyTls) => match proxy::parse_anytls(name, o) {
            Ok(p) => Outbound::AnyTls(p),
            Err(e) => {
                return Err(e);
            },
        },
        Some(ProxyKind::Hysteria2) => match proxy::parse_hysteria2(name, o) {
            Ok(p) => Outbound::Hysteria2(p),
            Err(e) => {
                return Err(e);
            },
        },
    };
    Ok(WrappedProxy::new(outbound))
}

/// A VLESS server with keys for an encrypted hello is refused, whatever else its options
/// say.
pub proof fn law_hidden_hellos_are_refused(o: Opts)
    requires
        yaml::str_option(o, "type"@) == Some("vless"@),
        vless::hides_hello(o),
    ensures
        proxy_error(o) is Some,
{
    reveal_strlit("ss");
    reveal_strlit("trojan");
    reveal_strlit("vless");
    assert("ss"@.len() == 2 && "trojan"@.len() == 6 && "vless"@.len() == 5);
}

} // verus!
