//! What a configuration comes to.

use crate::cidr;
use crate::config::assemble;
use crate::config::assemble::{ApiConfig, Config, GeneralConfig, Preparations, TunnelMode};
use crate::config::dns;
use crate::config::group;
use crate::config::listener;
use crate::config::listener::{ListenerConfig, ListenerErrorView, ListenerType, ListenerView};
use crate::config::proxy_registry;
use crate::config::raw::{RawConfig, RawListener, RawSniffProtocol, RawSniffer, RawTun};
use crate::config::rule_provider;
use crate::config::sniffer;
use crate::config::sniffer::{SnifferError, SnifferView};
use crate::config::tun;
use crate::config::tun::{TunConfig, TunErrorView};
use crate::net;
use crate::paths;
use crate::text;
use vstd::prelude::*;
use vstd::string::*;
use vstd::utf8::*;

verus! {

proof fn lemma_mode_names()
    ensures
        "global"@ != "rule"@ && "global"@ != "direct"@ && "rule"@ != "direct"@,
{
    reveal_strlit("global");
    reveal_strlit("rule");
    reveal_strlit("direct");
    assert("global"@.len() == 6 && "rule"@.len() == 4 && "direct"@.len() == 6);
    assert("global"@[0] == 'g' && "direct"@[0] == 'd');
}

/// Each mode goes by its own name, whatever the case of its letters; another name is
/// none.
pub proof fn law_modes_have_their_names(s: Seq<char>)
    ensures
        ({
            let l = text::unicode_lower(s);
            &&& assemble::mode_named(s) == Some(TunnelMode::Global) <==> l == "global"@
            &&& assemble::mode_named(s) == Some(TunnelMode::Rule) <==> l == "rule"@
            &&& assemble::mode_named(s) == Some(TunnelMode::Direct) <==> l == "direct"@
            &&& assemble::mode_named(s) is None <==> l != "global"@ && l != "rule"@ && l
                != "direct"@
        }),
        assemble::mode_name(TunnelMode::Global) == "global"@,
        assemble::mode_name(TunnelMode::Rule) == "rule"@,
        assemble::mode_name(TunnelMode::Direct) == "direct"@,
{
    lemma_mode_names();
}

/// General settings are as they are written, and the usual ones where they are not: rules
/// decide, messages are informative, addresses are of the old kind, and only this machine
/// is served.
pub proof fn law_general_settings(g: GeneralConfig, raw: RawConfig)
    requires
        assemble::general_matches(g, raw),
    ensures
        raw.mode is None ==> g.mode == TunnelMode::Rule,
        raw.mode matches Some(m) ==> (assemble::mode_named(m@) matches Some(x) ==> g.mode == x)
            && (assemble::mode_named(m@) is None ==> g.mode == TunnelMode::Rule),
        raw.log_level matches Some(l) ==> g.log_level@ == l@,
        raw.log_level is None ==> g.log_level@ == "info"@,
        g.ipv6 <==> raw.ipv6 == Some(true),
        g.allow_lan <==> raw.allow_lan == Some(true),
        raw.bind_address matches Some(b) ==> g.bind_address@ == b@,
        raw.bind_address is None ==> g.bind_address@ == "127.0.0.1"@,
{
}

/// The control interface listens where it is told to, or not at all; what it hands out is
/// taken from the directory that is named, below which a name may be given.
pub proof fn law_the_control_interface(a: ApiConfig, raw: RawConfig)
    requires
        assemble::api_error(raw) is None,
        assemble::api_matches(a, raw),
    ensures
        a.external_controller is Some <==> (raw.external_controller matches Some(s) && s@.len()
            > 0),
        a.external_controller is Some ==> net::socket(raw.external_controller->0@)
            == a.external_controller,
        text::opt_view(a.secret) == text::opt_view(raw.secret),
        a.external_ui is Some <==> (raw.external_ui matches Some(d) && d@.len() > 0),
        a.external_ui matches Some(u) ==> ((raw.external_ui_name matches Some(n) && n@.len() > 0)
            ==> u@ == paths::joined(raw.external_ui->0@, raw.external_ui_name->0@)) && (!(
        raw.external_ui_name matches Some(n) && n@.len() > 0) ==> u@ == raw.external_ui->0@),
        a.external_ui_url is Some <==> (raw.external_ui_url matches Some(u) && u@.len() > 0),
        a.external_ui_url is Some ==> a.external_ui_url->0@ == raw.external_ui_url->0@,
{
}

/// The control interface is refused exactly where it is told to listen on what is no
/// address.
pub proof fn law_when_the_control_interface_is_refused(raw: RawConfig)
    ensures
        assemble::api_error(raw) is Some <==> (raw.external_controller matches Some(s) && s@.len()
            > 0 && net::socket(s@) is None),
{
}

proof fn lemma_listener_names()
    ensures
        "mixed"@ != "http"@ && "mixed"@ != "socks5"@ && "mixed"@ != "tproxy"@,
        "http"@ != "socks5"@ && "http"@ != "tproxy"@ && "socks5"@ != "tproxy"@,
{
    reveal_strlit("mixed");
    reveal_strlit("http");
    reveal_strlit("socks5");
    reveal_strlit("tproxy");
    assert("mixed"@.len() == 5 && "http"@.len() == 4 && "socks5"@.len() == 6 && "tproxy"@.len()
        == 6);
    assert("socks5"@[0] == 's' && "tproxy"@[0] == 't');
}

/// Each type of listener goes by its own name, and is read from it.
pub proof fn law_listeners_have_their_names(l: Seq<char>, t: ListenerType)
    ensures
        listener::named_type(l) == Some(ListenerType::Mixed) <==> l == "mixed"@,
        listener::named_type(l) == Some(ListenerType::Http) <==> l == "http"@,
        listener::named_type(l) == Some(ListenerType::Socks5) <==> l == "socks5"@,
        listener::named_type(l) == Some(ListenerType::TProxy) <==> l == "tproxy"@,
        listener::named_type(l) is None <==> l != "mixed"@ && l != "http"@ && l != "socks5"@ && l
            != "tproxy"@,
        listener::named_type(listener::protocol_name(t)) == Some(t),
{
    lemma_listener_names();
}

/// The settings of listeners are those of the configuration: each port is that of its own
/// option. Others than this machine are served only where that is allowed, and names are
/// looked at unless that is switched off.
pub proof fn law_listener_settings(l: ListenerConfig, raw: RawConfig)
    requires
        assemble::listeners_match(l, raw),
    ensures
        l.mixed_port == raw.mixed_port,
        l.socks_port == raw.socks_port,
        l.http_port == raw.port,
        l.tproxy_port == raw.tproxy_port,
        l.routing_mark == raw.routing_mark,
        l.tproxy_sni <==> raw.tproxy_sni != Some(false),
        raw.allow_lan != Some(true) ==> l.bind_address@ == "127.0.0.1"@,
        raw.allow_lan == Some(true) ==> (raw.bind_address matches Some(b) ==> l.bind_address@
            == b@) && (raw.bind_address is None ==> l.bind_address@ == "127.0.0.1"@),
{
}

proof fn lemma_owner(list: Seq<ListenerView>, port: u16)
    ensures
        listener::port_owner(list, port) is Some <==> exists|i: int|
            0 <= i < list.len() && (#[trigger] list[i]).port == port,
        listener::port_owner(list, port) matches Some(n) ==> exists|i: int|
            0 <= i < list.len() && (#[trigger] list[i]).port == port && list[i].name == n,
    decreases list.len(),
{
    if list.len() > 0 {
        let r = list.drop_last();
        lemma_owner(r, port);
        if list.last().port == port {
            assert(list[list.len() - 1].port == port);
        } else {
            if exists|i: int| 0 <= i < list.len() && (#[trigger] list[i]).port == port {
                let i = choose|i: int| 0 <= i < list.len() && (#[trigger] list[i]).port == port;
                assert(r[i].port == port);
            }
            if exists|i: int| 0 <= i < r.len() && (#[trigger] r[i]).port == port {
                let i = choose|i: int| 0 <= i < r.len() && (#[trigger] r[i]).port == port;
                assert(list[i].port == port);
            }
            if let Some(n) = listener::port_owner(list, port) {
                let i = choose|i: int|
                    0 <= i < r.len() && (#[trigger] r[i]).port == port && r[i].name == n;
                assert(list[i].port == port);
            }
        }
    }
}

/// A listener is added behind the others where neither its port nor its name is taken; a
/// port that is taken is told before a name that is.
pub proof fn law_listeners_are_added_one_by_one(list: Seq<ListenerView>, l: ListenerView)
    ensures
        ({
            let r = listener::accept(list, l);
            let port = exists|i: int| 0 <= i < list.len() && (#[trigger] list[i]).port == l.port;
            let name = exists|i: int| 0 <= i < list.len() && (#[trigger] list[i]).name == l.name;
            &&& r is Ok <==> !port && !name
            &&& r matches Ok(v) ==> v == list.push(l)
            &&& port ==> (r matches Err(ListenerErrorView::DuplicatePort { port: p, .. }) && p
                == l.port)
            &&& !port && name ==> (r matches Err(ListenerErrorView::DuplicateName(n)) && n
                == l.name)
        }),
{
    lemma_owner(list, l.port);
}

/// The ports of the general options each open a listener of their own kind: on the
/// address that others are served on, but for transparent connections, which come from
/// this machine. Those that are not set open none.
pub proof fn law_ports_open_their_listeners(raw: RawConfig, bind: Seq<char>, sni: bool)
    requires
        listener::shorthands(raw, bind, sni) is Ok,
    ensures
        ({
            let v = listener::shorthands(raw, bind, sni)->Ok_0;
            let max = match raw.max_connections {
                Some(n) => n,
                None => 256,
            };
            let mixed = opened("mixed"@, ListenerType::Mixed, raw.mixed_port, bind, false, max);
            let socks = opened("socks"@, ListenerType::Socks5, raw.socks_port, bind, false, max);
            let http = opened("http"@, ListenerType::Http, raw.port, bind, false, max);
            let transparent = opened(
                "tproxy"@,
                ListenerType::TProxy,
                raw.tproxy_port,
                "127.0.0.1"@,
                sni,
                max,
            );
            v == mixed + socks + http + transparent
        }),
{
    let v = listener::shorthands(raw, bind, sni)->Ok_0;
    let max = listener::max_connections(raw);
    let mixed = opened("mixed"@, ListenerType::Mixed, raw.mixed_port, bind, false, max);
    let socks = opened("socks"@, ListenerType::Socks5, raw.socks_port, bind, false, max);
    let http = opened("http"@, ListenerType::Http, raw.port, bind, false, max);
    let transparent = opened(
        "tproxy"@,
        ListenerType::TProxy,
        raw.tproxy_port,
        "127.0.0.1"@,
        sni,
        max,
    );
    assert(v =~= mixed + socks + http + transparent);
}

/// The listener that a port opens, if it is set.
pub open spec fn opened(
    name: Seq<char>,
    t: ListenerType,
    port: Option<u16>,
    listen: Seq<char>,
    sni: bool,
    max: usize,
) -> Seq<ListenerView> {
    match port {
        Some(port) => seq![
            ListenerView {
                name,
                listener_type: t,
                port,
                listen,
                tproxy_sni: sni,
                max_connections: max,
            },
        ],
        None => Seq::empty(),
    }
}

/// A listener of its own section has the name, the port and the type that the section
/// says; what it does not say is as for the others, and transparent connections come from
/// this machine.
pub proof fn law_listeners_are_as_their_sections_say(
    r: RawListener,
    t: ListenerType,
    bind: Seq<char>,
    sni: bool,
    max: usize,
)
    ensures
        ({
            let l = listener::filled(r, t, bind, sni, max);
            &&& l.name == r.name@
            &&& l.listener_type == t
            &&& l.port == r.port
            &&& r.listen matches Some(s) ==> l.listen == s@
            &&& r.listen is None && t is TProxy ==> l.listen == "127.0.0.1"@
            &&& r.listen is None && !(t is TProxy) ==> l.listen == bind
            &&& r.tproxy_sni matches Some(b) ==> l.tproxy_sni == b
            &&& r.tproxy_sni is None ==> l.tproxy_sni == sni
            &&& r.max_connections matches Some(n) ==> l.max_connections == n
            &&& r.max_connections is None ==> l.max_connections == max
        }),
{
}

/// Listeners of their own sections are added behind those of the general options, in
/// order; the first that has an unknown type or clashes refuses them all.
pub proof fn law_sections_add_listeners_in_order(
    list: listener::Listed,
    named: Seq<RawListener>,
    r: RawListener,
    bind: Seq<char>,
    sni: bool,
    max: usize,
)
    ensures
        listener::with_named(list, Seq::empty(), bind, sni, max) == list,
        ({
            let had = listener::with_named(list, named, bind, sni, max);
            let now = listener::with_named(list, named.push(r), bind, sni, max);
            let t = listener::named_type(text::unicode_lower(r.listener_type@));
            &&& had is Err ==> now == had
            &&& had is Ok && t is None ==> now is Err
            &&& had matches Ok(v) ==> (t matches Some(k) ==> now == listener::accept(
                v,
                listener::filled(r, k, bind, sni, max),
            ))
        }),
{
    assert(named.push(r).drop_last() =~= named);
}

/// Looking into connections is off without a section; the option for transparent
/// connections switches it on for TLS alone.
pub proof fn law_sniffing_without_a_section(raw: RawConfig)
    requires
        raw.sniffer is None,
    ensures
        ({
            let r = sniffer::sniffer_of(raw);
            let s = r->Ok_0;
            &&& r is Ok
            &&& s.enable <==> raw.tproxy_sni == Some(true)
            &&& s.timeout == 100
            &&& s.parse_pure_ip
            &&& !s.override_destination
            &&& s.skip_domain.len() == 0 && s.force_domain.len() == 0
            &&& s.enable ==> s.tls_ports == seq![443u16] && s.http_ports.len() == 0
            &&& !s.enable ==> s.tls_ports == seq![443u16, 8443] && s.http_ports == seq![
                80u16,
                8080,
                8880,
            ]
        }),
{
}

/// A section on looking into connections is followed, and refused exactly where its time
/// is out of range, or where it is switched on without a protocol or without a port.
pub proof fn law_sniffing_with_a_section(raw: RawConfig, x: RawSniffer)
    requires
        raw.sniffer == Some(x),
    ensures
        ({
            let r = sniffer::sniffer_of(raw);
            let time = match x.timeout {
                Some(n) => n,
                None => 100,
            };
            let tls = sniffer::section_ports(x, "TLS"@);
            let http = sniffer::section_ports(x, "HTTP"@);
            let on = x.enable == Some(true);
            &&& r is Err <==> time < 1 || time > 60000 || (on && x.sniff is None) || (on
                && tls.len() == 0 && http.len() == 0)
            &&& time < 1 || time > 60000 ==> r == Err::<SnifferView, SnifferError>(
                SnifferError::Timeout(time),
            )
            &&& r matches Ok(s) ==> {
                &&& s.enable == on
                &&& s.timeout == time
                &&& s.parse_pure_ip <==> x.parse_pure_ip != Some(false)
                &&& s.override_destination <==> x.override_destination == Some(true)
                &&& s.tls_ports == tls
                &&& s.http_ports == http
                &&& x.skip_domain matches Some(v) ==> s.skip_domain == text::views(v@)
                &&& x.skip_domain is None ==> s.skip_domain.len() == 0
                &&& x.force_domain matches Some(v) ==> s.force_domain == text::views(v@)
                &&& x.force_domain is None ==> s.force_domain.len() == 0
            }
        }),
{
}

/// The ports of a protocol are those that are listed under its name, whatever the case of
/// its letters; the last entry of a name counts.
pub proof fn law_ports_go_by_the_protocol(
    m: Seq<(String, RawSniffProtocol)>,
    e: (String, RawSniffProtocol),
    name: Seq<char>,
)
    ensures
        sniffer::ports_of(Seq::empty(), name).len() == 0,
        text::unicode_upper(e.0@) != name ==> sniffer::ports_of(m.push(e), name)
            == sniffer::ports_of(m, name),
        text::unicode_upper(e.0@) == name ==> (e.1.ports matches Some(p) ==> sniffer::ports_of(
            m.push(e),
            name,
        ) == p@) && (e.1.ports is None ==> sniffer::ports_of(m.push(e), name).len() == 0),
{
    assert(m.push(e).drop_last() =~= m);
}

/// A virtual device is set up as its section says: switched on where that is asked for,
/// under the name that is given and not empty, with the frame size, the address, the
/// routes and the time that are given, or the usual ones. Queries are answered here where
/// some entry asks for it.
pub proof fn law_the_device_is_set_up_as_asked(c: TunConfig, r: RawTun)
    requires
        tun::tun_error(r) is None,
        tun::tun_matches(c, r),
    ensures
        c.enable == r.enable,
        c.device is Some <==> (r.device matches Some(d) && d@.len() > 0),
        c.device is Some ==> c.device->0@ == r.device->0@,
        r.mtu matches Some(n) ==> c.mtu == n,
        r.mtu is None ==> c.mtu == 1500,
        c.mtu >= 1280,
        r.inet4_address matches Some(a) ==> cidr::range4(a@) == Some(c.inet4_address),
        r.inet4_address is None ==> c.inet4_address == (0xac13_0001u32, 30u8),
        c.auto_route <==> r.auto_route != Some(false),
        c.dns_hijack <==> (r.dns_hijack matches Some(v) && exists|i: int|
            0 <= i < v@.len() && tun::hijacks((#[trigger] v@[i])@)),
        r.udp_timeout matches Some(n) ==> c.udp_timeout == n && n > 0,
        r.udp_timeout is None ==> c.udp_timeout == 60,
{
    if let Some(v) = r.dns_hijack {
        let t = text::views(v@);
        if tun::any_hijack(t) {
            let i = choose|i: int| 0 <= i < t.len() && tun::hijacks(#[trigger] t[i]);
            assert(tun::hijacks(v@[i]@));
        }
        if exists|i: int| 0 <= i < v@.len() && tun::hijacks((#[trigger] v@[i])@) {
            let i = choose|i: int| 0 <= i < v@.len() && tun::hijacks((#[trigger] v@[i])@);
            assert(t[i] == v@[i]@);
        }
    }
}

/// Without a section there is no device. A section is refused exactly where its frames are
/// smaller than 1280 bytes, its address is none, or its time is zero.
pub proof fn law_when_a_device_is_refused(c: TunConfig, r: RawTun)
    ensures
        tun::usual_tun(c) ==> !c.enable && c.mtu == 1500 && c.inet4_address == (
            0xac13_0001u32,
            30u8,
        ) && c.auto_route && !c.dns_hijack && c.udp_timeout == 60 && c.device is None,
        tun::tun_error(r) is Some <==> (r.mtu matches Some(n) && n < 1280) || (
        r.inet4_address matches Some(a) && cidr::range4(a@) is None) || r.udp_timeout == Some(0u64),
        (r.mtu matches Some(n) && n < 1280) ==> tun::tun_error(r) == Some(
            TunErrorView::Mtu(r.mtu->0),
        ),
{
}

/// A configuration is refused exactly where some part of it is.
pub proof fn law_when_a_configuration_is_refused(raw: RawConfig, p: Preparations)
    ensures
        assemble::config_error(raw, p) is Some <==> {
            ||| p.geodata is Err
            ||| p.outside.databases is Err
            ||| p.outside.blocks is Err && (raw.sub_rules matches Some(v) && v@.len() > 0)
            ||| group::first_unknown(
                text::views(p.outside.references@),
                proxy_registry::block_names(raw),
                0,
            ) is Some
            ||| dns::dns_error(raw, p.dns) is Some
            ||| listener::listeners_of(raw, assemble::bind_of(raw), assemble::sni_of(raw)) is Err
            ||| raw.tun matches Some(t) && tun::tun_error(t) is Some
            ||| assemble::api_error(raw) is Some
            ||| sniffer::sniffer_of(raw) is Err
            ||| p.auth is Err
        },
{
}

/// What is run of a configuration is what each part of it comes to; the proxies ask this
/// program for names, and selections are remembered where there is a directory for it.
pub proof fn law_a_configuration_is_the_sum_of_its_parts(
    c: Config,
    raw: RawConfig,
    p: Preparations,
    cache_dir: Option<Seq<char>>,
)
    requires
        assemble::config_matches(c, raw, p, cache_dir),
    ensures
        c.raw == raw,
        assemble::general_matches(c.general, raw),
        dns::plan_matches(c.dns, raw, p.dns, cache_dir),
        c.proxies@ == proxy_registry::registry_of(
            raw,
            p.outside.failed@,
            true,
            text::views(p.providers@),
            cache_dir is Some,
        ).reg,
        assemble::listeners_match(c.listeners, raw),
        assemble::api_matches(c.api, raw),
        raw.tun matches Some(t) ==> tun::tun_matches(c.tun, t),
        raw.tun is None ==> !c.tun.enable,
        sniffer::sniffer_of(raw) matches Ok(s) && c.sniffer@ == s,
        p.geodata matches Ok(g) && c.geodata == g,
        c.selections is Some <==> cache_dir is Some,
        c.selections matches Some(s) ==> s@ == paths::joined(cache_dir->0, "selector-cache.json"@),
        raw.rule_providers is None ==> rule_provider::provider_views(c.rule_providers@).len()
            == 0 || p.fetched@.len() > 0,
{
    if raw.rule_providers is None && p.fetched@.len() == 0 {
        assert(rule_provider::all_loaded(
            assemble::rule_sources_in(raw),
            cache_dir,
            p.fetched@,
            p.now,
            0,
        ).len() == 0);
    }
}

/// The mark that may stand before a text is taken off, and only that.
pub proof fn law_the_mark_is_taken_off(b: Seq<u8>)
    ensures
        assemble::without_mark(seq![0xEFu8, 0xBB, 0xBF] + b) == b,
        b.len() < 3 || b[0] != 0xEF || b[1] != 0xBB || b[2] != 0xBF ==> assemble::without_mark(b)
            == b,
{
    let m = seq![0xEFu8, 0xBB, 0xBF] + b;
    assert(m.subrange(0, 3) =~= assemble::byte_order_mark());
    assert(m.skip(3) =~= b);
    if assemble::byte_order_mark().is_prefix_of(b) {
        assert(b.subrange(0, 3)[0] == 0xEF && b.subrange(0, 3)[1] == 0xBB && b.subrange(0, 3)[2]
            == 0xBF);
    }
}

} // verus!
