//! The configuration as it is written. Maps are lists of named entries, in which
//! a name stands once.

use crate::config::yaml;
use crate::config::yaml::{Options, Yaml, YamlNumber};
use crate::number;
use crate::text;
use vstd::prelude::*;
use vstd::string::*;

verus! {

/// The `geodata:` section: paths, download addresses and updates.
#[derive(Debug, Default)]
pub struct RawGeoDataConfig {
    pub mmdb_path: Option<String>,
    pub asn_path: Option<String>,
    pub geosite_path: Option<String>,
    pub auto_update: bool,
    pub auto_update_interval: Option<u32>,
    pub url: Option<RawGeoDataUrls>,
    pub geodata_mode: Option<Yaml>,
    pub geodata_loader: Option<Yaml>,
    pub geoip_matcher: Option<Yaml>,
}

/// Download addresses that replace the built-in ones.
#[derive(Clone, Debug, Default)]
pub struct RawGeoDataUrls {
    pub mmdb: Option<String>,
    pub asn: Option<String>,
    pub geosite: Option<String>,
}

/// The whole document.
#[derive(Debug, Default)]
pub struct RawConfig {
    pub port: Option<u16>,
    pub socks_port: Option<u16>,
    pub mixed_port: Option<u16>,
    pub allow_lan: Option<bool>,
    pub bind_address: Option<String>,
    pub mode: Option<String>,
    pub log_level: Option<String>,
    pub ipv6: Option<bool>,
    pub external_controller: Option<String>,
    pub external_ui: Option<String>,
    pub external_ui_name: Option<String>,
    pub external_ui_url: Option<String>,
    pub secret: Option<String>,
    pub dns: Option<RawDns>,
    pub proxies: Option<Vec<Options>>,
    pub proxy_groups: Option<Vec<RawProxyGroup>>,
    pub proxy_providers: Option<Vec<(String, RawProxyProvider)>>,
    pub rules: Option<Vec<String>>,
    pub rule_providers: Option<Vec<(String, RawRuleProvider)>>,
    /// Named blocks of rules that `SUB-RULE` refers to.
    pub sub_rules: Option<Vec<(String, Vec<String>)>>,
    pub subscriptions: Option<Vec<RawSubscription>>,
    pub tproxy_port: Option<u16>,
    pub tproxy_sni: Option<bool>,
    pub routing_mark: Option<u32>,
    /// Fixed addresses of hosts.
    pub hosts: Option<Vec<(String, HostsValue)>>,
    pub sniffer: Option<RawSniffer>,
    pub tun: Option<RawTun>,
    /// Listeners with names of their own.
    pub listeners: Option<Vec<RawListener>>,
    pub authentication: Option<Vec<String>>,
    pub skip_auth_prefixes: Option<Vec<String>>,
    pub geodata: Option<RawGeoDataConfig>,
    /// How many connections a listener carries at a time; zero means any number.
    pub max_connections: Option<usize>,
}

/// The addresses of a host: one, or a list.
#[derive(Clone, Debug)]
pub enum HostsValue {
    One(String),
    Many(Vec<String>),
}

/// The texts of a list of string slices.
pub open spec fn str_views(v: Seq<&str>) -> Seq<Seq<char>> {
    v.map_values(|s: &str| s@)
}

/// Each string of a list.
pub fn borrow_all<'a>(v: &'a Vec<String>) -> (out: Vec<&'a str>)
    ensures
        str_views(out@) == text::views(v@),
{
    let mut out: Vec<&'a str> = Vec::new();
    let mut i: usize = 0;
    while i < v.len()
        invariant
            i <= v@.len(),
            str_views(out@) == text::views(v@).take(i as int),
        decreases v@.len() - i,
    {
        let s = v[i].as_str();
        let ghost shown = str_views(out@).push(s@);
        out.push(s);
        assert(str_views(out@) =~= shown);
        assert(text::views(v@).take(i + 1) =~= text::views(v@).take(i as int).push(s@));
        i += 1;
    }
    assert(text::views(v@).take(i as int) =~= text::views(v@));
    out
}

impl HostsValue {
    /// The addresses as a list.
    pub open spec fn list(self) -> Seq<Seq<char>> {
        match self {
            HostsValue::One(s) => seq![s@],
            HostsValue::Many(v) => text::views(v@),
        }
    }

    /// The addresses as a list.
    pub fn as_slice(&self) -> (out: Vec<&str>)
        ensures
            str_views(out@) == self.list(),
    {
        match self {
            HostsValue::One(s) => {
                let mut out: Vec<&str> = Vec::new();
                out.push(s.as_str());
                assert(str_views(out@) =~= seq![s@]);
                out
            },
            HostsValue::Many(v) => borrow_all(v),
        }
    }
}

/// A listener with a name of its own.
#[derive(Clone, Debug)]
pub struct RawListener {
    pub name: String,
    pub listener_type: String,
    pub port: u16,
    pub listen: Option<String>,
    pub tproxy_sni: Option<bool>,
    /// Replaces the global limit; zero means any number.
    pub max_connections: Option<usize>,
}

/// The `dns:` section.
#[derive(Debug, Default)]
pub struct RawDns {
    pub enable: Option<bool>,
    pub listen: Option<String>,
    pub enhanced_mode: Option<String>,
    pub fake_ip_range: Option<String>,
    pub fake_ip_filter_mode: Option<String>,
    pub store_fake_ip: Option<bool>,
    pub default_nameserver: Option<Vec<String>>,
    pub nameserver: Option<Vec<String>>,
    pub fallback: Option<Vec<String>>,
    pub fake_ip_filter: Option<Vec<String>>,
    pub use_hosts: Option<bool>,
    pub use_system_hosts: Option<bool>,
    /// Which names go to which nameservers.
    pub nameserver_policy: Option<Vec<(String, RawNspValue)>>,
    pub fallback_filter: Option<RawFallbackFilter>,
}

/// The nameservers of a policy: one, or a list.
#[derive(Clone, Debug)]
pub enum RawNspValue {
    One(String),
    Many(Vec<String>),
}

impl RawNspValue {
    /// The nameservers as a list.
    pub open spec fn list(self) -> Seq<Seq<char>> {
        match self {
            RawNspValue::One(s) => seq![s@],
            RawNspValue::Many(v) => text::views(v@),
        }
    }

    /// The nameservers as a list.
    pub fn as_urls(&self) -> (out: Vec<&str>)
        ensures
            str_views(out@) == self.list(),
    {
        match self {
            RawNspValue::One(s) => {
                let mut out: Vec<&str> = Vec::new();
                out.push(s.as_str());
                assert(str_views(out@) =~= seq![s@]);
                out
            },
            RawNspValue::Many(v) => borrow_all(v),
        }
    }
}

/// When the fallback nameservers are asked.
#[derive(Clone, Debug, Default)]
pub struct RawFallbackFilter {
    pub geoip: Option<bool>,
    pub geoip_code: Option<String>,
    pub ipcidr: Option<Vec<String>>,
    pub domain: Option<Vec<String>>,
}

/// A group of proxies.
#[derive(Clone, Debug, Default)]
pub struct RawProxyGroup {
    pub name: String,
    pub group_type: String,
    pub proxies: Option<Vec<String>>,
    pub url: Option<String>,
    pub interval: Option<u64>,
    pub tolerance: Option<u16>,
    pub strategy: Option<String>,
    pub lazy: Option<bool>,
    pub use_providers: Option<Vec<String>>,
    pub filter: Option<String>,
    pub exclude_filter: Option<String>,
    pub exclude_type: Option<Vec<String>>,
    pub include_all: Option<bool>,
    pub include_all_proxies: Option<bool>,
}

/// A source of proxies.
#[derive(Clone, Debug)]
pub struct RawProxyProvider {
    pub provider_type: String,
    pub url: Option<String>,
    pub path: Option<String>,
    pub interval: Option<u64>,
    pub filter: Option<String>,
    pub exclude_filter: Option<String>,
    pub exclude_type: Option<Vec<String>>,
    pub health_check: Option<RawHealthCheck>,
}

/// How the proxies of a source are tested.
#[derive(Clone, Debug)]
pub struct RawHealthCheck {
    pub enable: Option<bool>,
    pub url: Option<String>,
    pub interval: Option<u64>,
    pub timeout: Option<u64>,
    pub lazy: Option<bool>,
}

/// A source of rules.
#[derive(Clone, Debug)]
pub struct RawRuleProvider {
    pub provider_type: String,
    pub behavior: String,
    pub format: Option<String>,
    pub url: Option<String>,
    pub path: Option<String>,
    pub interval: Option<u64>,
    /// The rules of an inline source.
    pub payload: Option<Vec<String>>,
}

/// The `sniffer:` section.
#[derive(Clone, Debug, Default)]
pub struct RawSniffer {
    pub enable: Option<bool>,
    /// How long the first bytes are waited for, in milliseconds.
    pub timeout: Option<u64>,
    pub parse_pure_ip: Option<bool>,
    pub override_destination: Option<bool>,
    pub force_dns_mapping: Option<bool>,
    /// The ports of each protocol.
    pub sniff: Option<Vec<(String, RawSniffProtocol)>>,
    pub force_domain: Option<Vec<String>>,
    pub skip_domain: Option<Vec<String>>,
}

/// The ports of a protocol.
#[derive(Clone, Debug, Default)]
pub struct RawSniffProtocol {
    pub ports: Option<Vec<u16>>,
}

/// The `tun:` section. The options from `stack` on are not supported; they are kept as
/// they are written.
#[derive(Debug, Default)]
pub struct RawTun {
    pub enable: bool,
    pub device: Option<String>,
    pub mtu: Option<u16>,
    pub inet4_address: Option<String>,
    pub auto_route: Option<bool>,
    pub dns_hijack: Option<Vec<String>>,
    /// How long a datagram flow is kept, in seconds.
    pub udp_timeout: Option<u64>,
    pub stack: Option<Yaml>,
    pub strict_route: Option<Yaml>,
    pub auto_detect_interface: Option<Yaml>,
    pub auto_redirect: Option<Yaml>,
    pub inet6_address: Option<Yaml>,
    pub endpoint_independent_nat: Option<Yaml>,
    pub mtu_v6: Option<Yaml>,
    pub route_address: Option<Yaml>,
    pub route_exclude_address: Option<Yaml>,
    pub include_uid: Option<Yaml>,
    pub exclude_uid: Option<Yaml>,
}

/// A subscribed configuration.
#[derive(Clone, Debug)]
pub struct RawSubscription {
    pub name: String,
    pub url: String,
    pub interval: Option<u64>,
    pub last_updated: Option<i64>,
}

/// Why a list of ports could not be read.
#[derive(Clone, Debug)]
pub enum PortListError {
    InvalidPort(String),
    InvalidStart(String),
    InvalidEnd(String),
    InvalidRange(u16, u16),
    /// An item is neither a number nor text.
    UnexpectedItem,
    /// The value is not a list.
    NotAList,
}

/// A [`PortListError`] with its texts as sequences.
pub enum PortErrorView {
    InvalidPort(Seq<char>),
    InvalidStart(Seq<char>),
    InvalidEnd(Seq<char>),
    InvalidRange(u16, u16),
    UnexpectedItem,
    NotAList,
}

impl View for PortListError {
    type V = PortErrorView;

    open spec fn view(&self) -> PortErrorView {
        match self {
            PortListError::InvalidPort(s) => PortErrorView::InvalidPort(s@),
            PortListError::InvalidStart(s) => PortErrorView::InvalidStart(s@),
            PortListError::InvalidEnd(s) => PortErrorView::InvalidEnd(s@),
            PortListError::InvalidRange(a, b) => PortErrorView::InvalidRange(*a, *b),
            PortListError::UnexpectedItem => PortErrorView::UnexpectedItem,
            PortListError::NotAList => PortErrorView::NotAList,
        }
    }
}

/// The text of an error.
pub open spec fn port_message(e: PortErrorView) -> Seq<char> {
    match e {
        PortErrorView::InvalidPort(s) => "invalid port: "@ + s,
        PortErrorView::InvalidStart(s) => "invalid port range start: "@ + s,
        PortErrorView::InvalidEnd(s) => "invalid port range end: "@ + s,
        PortErrorView::InvalidRange(a, b) => "invalid port range: "@ + number::decimal(a as nat)
            + "-"@ + number::decimal(b as nat),
        PortErrorView::UnexpectedItem => "expected port number or range string"@,
        PortErrorView::NotAList => "a list of ports or port ranges (e.g. [80, \"8080-8880\"])"@,
    }
}

impl PortListError {
    /// The text of the error.
    pub fn message(&self) -> (s: String)
        ensures
            s@ == port_message(self@),
    {
        match self {
            PortListError::InvalidPort(s) => "invalid port: ".to_owned().concat(s.as_str()),
            PortListError::InvalidStart(s) => "invalid port range start: ".to_owned().concat(
                s.as_str(),
            ),
            PortListError::InvalidEnd(s) => "invalid port range end: ".to_owned().concat(
                s.as_str(),
            ),
            PortListError::InvalidRange(a, b) => "invalid port range: ".to_owned().concat(
                number::to_decimal(*a as u64).as_str(),
            ).concat("-").concat(number::to_decimal(*b as u64).as_str()),
            PortListError::UnexpectedItem => "expected port number or range string".to_owned(),
            PortListError::NotAList => "a list of ports or port ranges (e.g. [80, \"8080-8880\"])".to_owned(),
        }
    }
}

/// The numbers from `a` to `b`, both included.
pub open spec fn port_range(a: u16, b: u16) -> Seq<u16> {
    Seq::new((b - a + 1) as nat, |i: int| (a + i) as u16)
}

/// A port written as text, with white space around it.
pub open spec fn port_text(s: Seq<char>) -> Option<nat> {
    number::unsigned(text::trimmed(s), 65535)
}

/// The ports that one item of a list stands for.
pub open spec fn item_ports(y: Yaml) -> Result<Seq<u16>, PortErrorView> {
    match y {
        Yaml::Number(n) => match n {
            YamlNumber::Unsigned(v) if v <= 65535 => Ok(seq![v as u16]),
            _ => Err(PortErrorView::InvalidPort(yaml::number_text(n))),
        },
        Yaml::Text(t) => match text::find(t@, '-') {
            None => match port_text(t@) {
                Some(p) => Ok(seq![p as u16]),
                None => Err(PortErrorView::InvalidPort(t@)),
            },
            Some(k) => match port_text(t@.take(k)) {
                None => Err(PortErrorView::InvalidStart(t@.take(k))),
                Some(a) => match port_text(t@.skip(k + 1)) {
                    None => Err(PortErrorView::InvalidEnd(t@.skip(k + 1))),
                    Some(b) => if a > b {
                        Err(PortErrorView::InvalidRange(a as u16, b as u16))
                    } else {
                        Ok(port_range(a as u16, b as u16))
                    },
                },
            },
        },
        _ => Err(PortErrorView::UnexpectedItem),
    }
}

/// The ports of a list, or the error of its first bad item.
pub open spec fn list_ports(items: Seq<Yaml>) -> Result<Seq<u16>, PortErrorView>
    decreases items.len(),
{
    if items.len() == 0 {
        Ok(Seq::empty())
    } else {
        match list_ports(items.drop_last()) {
            Err(e) => Err(e),
            Ok(p) => match item_ports(items.last()) {
                Err(e) => Err(e),
                Ok(q) => Ok(p + q),
            },
        }
    }
}

fn read_port_text(s: &str) -> (r: Option<u16>)
    ensures
        (match r {
            Some(p) => port_text(s@) == Some(p as nat),
            None => port_text(s@) is None,
        }),
{
    number::parse_u16(text::trim(s).as_str())
}

fn read_item(y: &Yaml, ports: &mut Vec<u16>) -> (r: Result<(), PortListError>)
    ensures
        (match r {
            Ok(_) => item_ports(*y) matches Ok(p) && final(ports)@ == old(ports)@ + p,
            Err(e) => item_ports(*y) == Err::<Seq<u16>, PortErrorView>(e@),
        }),
{
    let ghost before = ports@;
    match y {
        Yaml::Number(n) => {
            if let YamlNumber::Unsigned(v) = n {
                if *v <= 65535 {
                    ports.push(*v as u16);
                    assert(ports@ =~= before + seq![*v as u16]);
                    return Ok(());
                }
            }
            Err(PortListError::InvalidPort(yaml::format_number(n)))
        },
        Yaml::Text(t) => {
            let chars = text::chars_of(t.as_str());
            match text::find_char(&chars, '-') {
                None => match read_port_text(t.as_str()) {
                    Some(p) => {
                        ports.push(p);
                        assert(ports@ =~= before + seq![p]);
                        Ok(())
                    },
                    None => Err(PortListError::InvalidPort(t.clone())),
                },
                Some(k) => {
                    let start = text::string_range(&chars, 0, k);
                    let end = text::string_range(&chars, k + 1, chars.len());
                    assert(start@ == t@.take(k as int));
                    assert(end@ == t@.skip(k + 1));
                    let a: u16 = match read_port_text(start.as_str()) {
                        Some(a) => a,
                        None => {
                            return Err(PortListError::InvalidStart(start));
                        },
                    };
                    let b: u16 = match read_port_text(end.as_str()) {
                        Some(b) => b,
                        None => {
                            return Err(PortListError::InvalidEnd(end));
                        },
                    };
                    if a > b {
                        return Err(PortListError::InvalidRange(a, b));
                    }
                    let mut i: u32 = a as u32;
                    while i <= b as u32
                        invariant
                            a <= i <= b + 1,
                            a <= b,
                            ports@ == before + port_range(a, b).take(i - a),
                        decreases b + 1 - i,
                    {
                        ports.push(i as u16);
                        assert(ports@ =~= before + port_range(a, b).take(i + 1 - a));
                        i += 1;
                    }
                    assert(port_range(a, b).take(i - a) =~= port_range(a, b));
                    Ok(())
                },
            }
        },
        _ => Err(PortListError::UnexpectedItem),
    }
}

/// Reads a list of ports and port ranges.
pub fn parse_port_list(y: &Yaml) -> (r: Result<Option<Vec<u16>>, PortListError>)
    ensures
        (match *y {
            Yaml::Null => r matches Ok(o) && o is None,
            Yaml::Sequence(items) => (match list_ports(items@) {
                Ok(p) => r matches Ok(o) && o matches Some(v) && v@ == p,
                Err(e) => r matches Err(x) && x@ == e,
            }),
            _ => r matches Err(x) && x is NotAList,
        }),
{
    match y {
        Yaml::Null => Ok(None),
        Yaml::Sequence(items) => {
            let mut ports: Vec<u16> = Vec::new();
            let mut i: usize = 0;
            while i < items.len()
                invariant
                    *y == Yaml::Sequence(*items),
                    i <= items@.len(),
                    list_ports(items@.take(i as int)) == Ok::<Seq<u16>, PortErrorView>(ports@),
                decreases items@.len() - i,
            {
                assert(items@.take(i + 1).drop_last() == items@.take(i as int));
                match read_item(&items[i], &mut ports) {
                    Ok(_) => {},
                    Err(e) => {
                        proof {
                            lemma_list_fails(items@, i + 1);
                        }
                        return Err(e);
                    },
                }
                i += 1;
            }
            assert(items@.take(i as int) == items@);
            Ok(Some(ports))
        },
        _ => Err(PortListError::NotAList),
    }
}

proof fn lemma_list_fails(items: Seq<Yaml>, k: int)
    requires
        0 <= k <= items.len(),
        list_ports(items.take(k)) is Err,
    ensures
        list_ports(items) == list_ports(items.take(k)),
    decreases items.len(),
{
    if k < items.len() {
        assert(items.drop_last().take(k) == items.take(k));
        lemma_list_fails(items.drop_last(), k);
    } else {
        assert(items.take(k) == items);
    }
}

/// Whether every value of a list is text.
pub open spec fn all_texts(items: Seq<Yaml>) -> bool {
    forall|i: int| 0 <= i < items.len() ==> (#[trigger] items[i]) is Text
}

/// Reads a string, or a list of strings. Gives an error for anything else.
pub fn parse_string_or_seq(y: &Yaml) -> (r: Result<Option<Vec<String>>, ()>)
    ensures
        (match *y {
            Yaml::Null => r matches Ok(o) && o is None,
            Yaml::Text(s) => r matches Ok(o) && o matches Some(v) && text::views(v@) == seq![s@],
            Yaml::Sequence(items) if all_texts(items@) => r matches Ok(o) && o matches Some(v)
                && text::views(v@) == yaml::texts(items@),
            _ => r is Err,
        }),
{
    match y {
        Yaml::Null => Ok(None),
        Yaml::Text(s) => {
            let mut v: Vec<String> = Vec::new();
            v.push(s.clone());
            assert(text::views(v@) =~= seq![s@]);
            Ok(Some(v))
        },
        Yaml::Sequence(items) => {
            let mut i: usize = 0;
            while i < items.len()
                invariant
                    *y == Yaml::Sequence(*items),
                    i <= items@.len(),
                    forall|j: int| 0 <= j < i ==> (#[trigger] items@[j]) is Text,
                decreases items@.len() - i,
            {
                match &items[i] {
                    Yaml::Text(_) => {},
                    _ => {
                        assert(!(items@[i as int] is Text));
                        return Err(());
                    },
                }
                i += 1;
            }
            Ok(Some(yaml::get_texts(items)))
        },
        _ => Err(()),
    }
}

} // verus!
