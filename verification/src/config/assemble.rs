//! The whole configuration, from what is written to what is run.

use crate::config::dns;
use crate::config::dns::{DnsPlan, Gathered};
use crate::config::group;
use crate::config::listener;
use crate::config::listener::ListenerConfig;
use crate::config::raw::{RawConfig, RawRuleProvider};
use crate::config::proxy_registry;
use crate::config::geo::GeoDataConfig;
use crate::config::proxy_registry::{Outside, ProxyRegistry, RebuildError, RebuildResult};
use crate::config::rule_provider;
use crate::config::rule_provider::{Fetched, RuleProvider, Source, SourceView};
use crate::config::sniffer;
use crate::config::sniffer::SnifferConfig;
use crate::config::tun;
use crate::config::tun::TunConfig;
use crate::config::yaml;
use crate::net;
use crate::net::SocketAddr;
use crate::number;
use crate::paths;
use crate::text;
use vstd::prelude::*;
use vstd::string::*;
use vstd::utf8::*;

verus! {

/// How connections are routed.
#[derive(Clone, Copy, Debug, PartialEq, Eq, Structural)]
pub enum TunnelMode {
    Global,
    Rule,
    Direct,
}

/// The name of a mode.
pub open spec fn mode_name(m: TunnelMode) -> Seq<char> {
    match m {
        TunnelMode::Global => "global"@,
        TunnelMode::Rule => "rule"@,
        TunnelMode::Direct => "direct"@,
    }
}

/// The mode that a lowercase text names.
pub open spec fn lower_mode(l: Seq<char>) -> Option<TunnelMode> {
    if l == "global"@ {
        Some(TunnelMode::Global)
    } else if l == "rule"@ {
        Some(TunnelMode::Rule)
    } else if l == "direct"@ {
        Some(TunnelMode::Direct)
    } else {
        None
    }
}

/// The mode that a text names, in letters of any case.
pub open spec fn mode_named(s: Seq<char>) -> Option<TunnelMode> {
    lower_mode(text::unicode_lower(s))
}

/// Finds the mode that a lowercase text names.
pub fn find_mode(lower: &str) -> (r: Option<TunnelMode>)
    ensures
        r == lower_mode(lower@),
{
    if text::same(lower, "global") {
        Some(TunnelMode::Global)
    } else if text::same(lower, "rule") {
        Some(TunnelMode::Rule)
    } else if text::same(lower, "direct") {
        Some(TunnelMode::Direct)
    } else {
        None
    }
}

impl TunnelMode {
    /// The name of the mode.
    pub fn name(&self) -> (s: String)
        ensures
            s@ == mode_name(*self),
    {
        match self {
            TunnelMode::Global => "global".to_owned(),
            TunnelMode::Rule => "rule".to_owned(),
            TunnelMode::Direct => "direct".to_owned(),
        }
    }

    /// The mode that a text names.
    pub fn parse(s: &str) -> (r: Option<TunnelMode>)
        ensures
            r == mode_named(s@),
    {
        find_mode(text::lowercase(s).as_str())
    }
}

/// A mode is read back from its name.
pub proof fn law_modes_are_read_back(m: TunnelMode)
    ensures
        lower_mode(mode_name(m)) == Some(m),
{
    reveal_strlit("global");
    reveal_strlit("rule");
    reveal_strlit("direct");
    assert("global"@.len() == 6 && "rule"@.len() == 4 && "direct"@.len() == 6);
    assert("global"@[0] == 'g' && "direct"@[0] == 'd');
}

/// What holds of the program as a whole.
#[derive(Clone, Debug)]
pub struct GeneralConfig {
    pub mode: TunnelMode,
    pub log_level: String,
    pub ipv6: bool,
    pub allow_lan: bool,
    pub bind_address: String,
}

/// The text that is set, or another.
pub open spec fn set_or(o: Option<String>, usual: Seq<char>) -> Seq<char> {
    match o {
        Some(s) => s@,
        None => usual,
    }
}

/// Whether general settings are what a configuration says. A mode that is not known
/// is the usual one.
pub open spec fn general_matches(g: GeneralConfig, raw: RawConfig) -> bool {
    &&& g.mode == (match raw.mode {
        Some(m) => match mode_named(m@) {
            Some(x) => x,
            None => TunnelMode::Rule,
        },
        None => TunnelMode::Rule,
    })
    &&& g.log_level@ == set_or(raw.log_level, "info"@)
    &&& g.ipv6 == (raw.ipv6 == Some(true))
    &&& g.allow_lan == (raw.allow_lan == Some(true))
    &&& g.bind_address@ == set_or(raw.bind_address, "127.0.0.1"@)
}

fn text_or(o: &Option<String>, usual: &str) -> (s: String)
    ensures
        s@ == set_or(*o, usual@),
{
    match o {
        Some(s) => s.clone(),
        None => usual.to_owned(),
    }
}

fn is_true(o: Option<bool>) -> (r: bool)
    ensures
        r == (o == Some(true)),
{
    match o {
        Some(b) => b,
        None => false,
    }
}

/// The general settings of a configuration.
pub fn general_config(raw: &RawConfig) -> (g: GeneralConfig)
    ensures
        general_matches(g, *raw),
{
    let mode = match &raw.mode {
        Some(m) => match TunnelMode::parse(m.as_str()) {
            Some(x) => x,
            None => TunnelMode::Rule,
        },
        None => TunnelMode::Rule,
    };
    GeneralConfig {
        mode,
        log_level: text_or(&raw.log_level, "info"),
        ipv6: is_true(raw.ipv6),
        allow_lan: is_true(raw.allow_lan),
        bind_address: text_or(&raw.bind_address, "127.0.0.1"),
    }
}

/// The control interface.
#[derive(Clone, Debug)]
pub struct ApiConfig {
    pub external_controller: Option<SocketAddr>,
    pub secret: Option<String>,
    /// The directory of a panel that takes the place of the built-in one.
    pub external_ui: Option<String>,
    pub external_ui_url: Option<String>,
}

/// A text that is set and not empty.
pub open spec fn filled(o: Option<String>) -> Option<Seq<char>> {
    match o {
        Some(s) => if s@.len() > 0 {
            Some(s@)
        } else {
            None
        },
        None => None,
    }
}

/// Whether the control interface is what a configuration says.
pub open spec fn api_matches(a: ApiConfig, raw: RawConfig) -> bool {
    &&& a.external_controller == (match filled(raw.external_controller) {
        Some(s) => net::socket(s),
        None => None,
    })
    &&& text::opt_view(a.secret) == text::opt_view(raw.secret)
    &&& text::opt_view(a.external_ui) == (match (
        filled(raw.external_ui),
        filled(raw.external_ui_name),
    ) {
        (Some(d), Some(n)) => Some(paths::joined(d, n)),
        (Some(d), None) => Some(d),
        (None, _) => None,
    })
    &&& text::opt_view(a.external_ui_url) == filled(raw.external_ui_url)
}

/// Why the control interface cannot be set up.
pub open spec fn api_error(raw: RawConfig) -> Option<Seq<char>> {
    match filled(raw.external_controller) {
        Some(s) => if net::socket(s) is None {
            Some(
                "invalid external-controller socket address '"@ + s
                    + "': invalid socket address syntax"@,
            )
        } else {
            None
        },
        None => None,
    }
}

fn fill(o: &Option<String>) -> (r: Option<String>)
    ensures
        text::opt_view(r) == filled(*o),
{
    match o {
        Some(s) => if s.as_str().unicode_len() > 0 {
            Some(s.clone())
        } else {
            None
        },
        None => None,
    }
}

/// The control interface of a configuration.
pub fn api_config(raw: &RawConfig) -> (r: Result<ApiConfig, String>)
    ensures
        (match r {
            Ok(a) => api_error(*raw) is None && api_matches(a, *raw),
            Err(e) => api_error(*raw) == Some(e@),
        }),
{
    let external_ui = match (fill(&raw.external_ui), fill(&raw.external_ui_name)) {
        (Some(d), Some(n)) => Some(paths::join(d.as_str(), n.as_str())),
        (Some(d), None) => Some(d),
        (None, _) => None,
    };
    let external_controller = match &raw.external_controller {
        Some(s) => match dns::parse_optional_socket_addr("external-controller", Some(s.as_str())) {
            Ok(a) => a,
            Err(e) => {
                proof {
                    reveal_strlit("invalid ");
                    reveal_strlit("external-controller");
                    reveal_strlit(" socket address '");
                    reveal_strlit("invalid external-controller socket address '");
                    assert("invalid "@ + "external-controller"@ + " socket address '"@
                        =~= "invalid external-controller socket address '"@);
                }
                return Err(e);
            },
        },
        None => None,
    };
    let secret = match &raw.secret {
        Some(s) => Some(s.clone()),
        None => None,
    };
    Ok(
        ApiConfig {
            external_controller,
            secret,
            external_ui,
            external_ui_url: fill(&raw.external_ui_url),
        },
    )
}

/// The address that listeners use where they name none: connections from other
/// hosts are taken only where they are allowed.
pub open spec fn bind_of(raw: RawConfig) -> Seq<char> {
    if raw.allow_lan == Some(true) {
        set_or(raw.bind_address, "127.0.0.1"@)
    } else {
        "127.0.0.1"@
    }
}

/// Whether transparent listeners look for names.
pub open spec fn sni_of(raw: RawConfig) -> bool {
    raw.tproxy_sni != Some(false)
}

/// Whether listeners are what a configuration says.
pub open spec fn listeners_match(l: ListenerConfig, raw: RawConfig) -> bool {
    &&& l.mixed_port == raw.mixed_port
    &&& l.socks_port == raw.socks_port
    &&& l.http_port == raw.port
    &&& l.bind_address@ == bind_of(raw)
    &&& l.tproxy_port == raw.tproxy_port
    &&& l.tproxy_sni == sni_of(raw)
    &&& l.routing_mark == raw.routing_mark
    &&& listener::listeners_of(raw, bind_of(raw), sni_of(raw)) is Ok
    &&& listener::listener_views(l.named@) == listener::listeners_of(
        raw,
        bind_of(raw),
        sni_of(raw),
    )->Ok_0
}

/// Why the listeners cannot be set up.
pub open spec fn listeners_error(raw: RawConfig) -> Option<Seq<char>> {
    match listener::listeners_of(raw, bind_of(raw), sni_of(raw)) {
        Ok(_) => None,
        Err(e) => Some(listener::listener_message(e)),
    }
}

/// The listeners of a configuration.
pub fn listener_config(raw: &RawConfig) -> (r: Result<ListenerConfig, String>)
    ensures
        (match r {
            Ok(l) => listeners_error(*raw) is None && listeners_match(l, *raw),
            Err(e) => listeners_error(*raw) == Some(e@),
        }),
{
    let bind = if is_true(raw.allow_lan) {
        text_or(&raw.bind_address, "127.0.0.1")
    } else {
        "127.0.0.1".to_owned()
    };
    let sni = match raw.tproxy_sni {
        Some(b) => b,
        None => true,
    };
    match listener::build_named_listeners(raw, bind.as_str(), sni) {
        Ok(named) => Ok(
            ListenerConfig {
                mixed_port: raw.mixed_port,
                socks_port: raw.socks_port,
                http_port: raw.port,
                bind_address: bind,
                tproxy_port: raw.tproxy_port,
                tproxy_sni: sni,
                routing_mark: raw.routing_mark,
                named,
            },
        ),
        Err(e) => Err(e.message()),
    }
}

/// The configuration that is run.
pub struct Config {
    pub general: GeneralConfig,
    pub dns: DnsPlan,
    pub proxies: ProxyRegistry,
    /// The dialers that were left out because they lead back to themselves.
    pub cycles: Vec<(String, String)>,
    pub rule_providers: Vec<RuleProvider>,
    pub listeners: ListenerConfig,
    pub tun: TunConfig,
    pub api: ApiConfig,
    pub sniffer: SnifferConfig,
    /// The configuration as it is written.
    pub raw: RawConfig,
    /// The file in which selections are remembered.
    pub selections: Option<String>,
    /// Where the databases are, where they come from and how often.
    pub geodata: GeoDataConfig,
}

/// What is gathered before a configuration is built: for the resolver, for the proxies
/// and rules, the names of the sources of proxies, and what came of reading the sources
/// of rules.
#[derive(Debug)]
pub struct Preparations {
    /// What came of reading the section on the databases.
    pub geodata: Result<GeoDataConfig, String>,
    /// What came of the parts of a rebuild that are done elsewhere.
    pub outside: Outside,
    pub dns: Gathered,
    pub providers: Vec<String>,
    pub fetched: Vec<Fetched>,
    /// The time, in seconds since 1970.
    pub now: u64,
    /// What came of reading whom the listeners let in.
    pub auth: Result<(), String>,
}

/// What went wrong, if anything.
pub open spec fn told_error(r: Result<(), String>) -> Option<Seq<char>> {
    match r {
        Ok(_) => None,
        Err(e) => Some(e@),
    }
}

/// The sources of rules of a configuration.
pub open spec fn rule_sources_in(raw: RawConfig) -> Seq<(String, RawRuleProvider)> {
    match raw.rule_providers {
        Some(p) => p@,
        None => Seq::empty(),
    }
}

/// Whether something was gathered for each nameserver and each source.
pub open spec fn prepared(p: Preparations, raw: RawConfig) -> bool {
    &&& dns::gathered_for(p.dns, raw)
    &&& p.fetched@.len() == rule_sources_in(raw).len()
}

/// The first rule that refers to a block that is not defined.
pub open spec fn reference_error(raw: RawConfig, references: Seq<Seq<char>>) -> Option<Seq<char>> {
    match group::first_unknown(references, proxy_registry::block_names(raw), 0) {
        Some(i) => Some(
            "rules: SUB-RULE,"@ + references[i] + " references undefined sub-rule block"@,
        ),
        None => None,
    }
}

/// Why the virtual device cannot be set up.
pub open spec fn device_error(raw: RawConfig) -> Option<Seq<char>> {
    match raw.tun {
        Some(t) => match tun::tun_error(t) {
            Some(e) => Some(tun::tun_message(e)),
            None => None,
        },
        None => None,
    }
}

/// Why connections cannot be looked into.
pub open spec fn sniffing_error(raw: RawConfig) -> Option<Seq<char>> {
    match sniffer::sniffer_of(raw) {
        Ok(_) => None,
        Err(e) => Some(sniffer::sniffer_message(e)),
    }
}

/// What went wrong with the section on the databases.
pub open spec fn geodata_error(r: Result<GeoDataConfig, String>) -> Option<Seq<char>> {
    match r {
        Ok(_) => None,
        Err(e) => Some(e@),
    }
}

/// Why a configuration cannot be used: the first that is wrong of the section on the
/// databases, the databases, the blocks of rules, the references to them, the resolver,
/// the listeners, the virtual device, the control interface, the sniffer and whom the
/// listeners let in.
pub open spec fn config_error(raw: RawConfig, p: Preparations) -> Option<Seq<char>> {
    dns::or_else(
        dns::or_else(
            dns::or_else(geodata_error(p.geodata), told_error(p.outside.databases)),
            dns::or_else(
                dns::or_else(
                    proxy_registry::blocks_error(raw, p.outside.blocks),
                    reference_error(raw, text::views(p.outside.references@)),
                ),
                dns::dns_error(raw, p.dns),
            ),
        ),
        dns::or_else(
            dns::or_else(listeners_error(raw), device_error(raw)),
            dns::or_else(
                api_error(raw),
                dns::or_else(sniffing_error(raw), told_error(p.auth)),
            ),
        ),
    )
}

/// Whether a configuration is run as it is written.
pub open spec fn config_matches(
    c: Config,
    raw: RawConfig,
    p: Preparations,
    cache_dir: Option<Seq<char>>,
) -> bool {
    let reg = proxy_registry::registry_of(
        raw,
        p.outside.failed@,
        true,
        text::views(p.providers@),
        cache_dir is Some,
    );
    &&& c.raw == raw
    &&& general_matches(c.general, raw)
    &&& dns::plan_matches(c.dns, raw, p.dns, cache_dir)
    &&& c.proxies.wf()
    &&& c.proxies@ == reg.reg
    &&& yaml::pair_views(c.cycles@) == reg.waiting
    &&& rule_provider::provider_views(c.rule_providers@) == rule_provider::all_loaded(
        rule_sources_in(raw),
        cache_dir,
        p.fetched@,
        p.now,
        p.fetched@.len(),
    )
    &&& listeners_match(c.listeners, raw)
    &&& match raw.tun {
        Some(t) => tun::tun_matches(c.tun, t),
        None => tun::usual_tun(c.tun),
    }
    &&& p.geodata == Ok::<GeoDataConfig, String>(c.geodata)
    &&& api_matches(c.api, raw)
    &&& sniffer::sniffer_of(raw) is Ok
    &&& c.sniffer@ == sniffer::sniffer_of(raw)->Ok_0
    &&& text::opt_view(c.selections) == (match cache_dir {
        Some(d) => Some(paths::joined(d, "selector-cache.json"@)),
        None => None,
    })
}

fn load_sources(raw: &RawConfig, cache_dir: Option<&str>, fetched: Vec<Fetched>, now: u64) -> (out:
    Vec<RuleProvider>)
    requires
        fetched@.len() == rule_sources_in(*raw).len(),
    ensures
        rule_provider::provider_views(out@) == rule_provider::all_loaded(
            rule_sources_in(*raw),
            rule_provider::opt_str_view(cache_dir),
            fetched@,
            now,
            fetched@.len(),
        ),
{
    match &raw.rule_providers {
        Some(p) => rule_provider::load_providers_prefetched(p, cache_dir, fetched, now),
        None => {
            let out: Vec<RuleProvider> = Vec::new();
            assert(rule_provider::provider_views(out@) =~= Seq::empty());
            out
        },
    }
}

/// Builds the configuration that is run. The proxies are built twice: once without
/// this process to ask for names, so that a configuration that cannot be built is
/// refused before nameservers are set up, and then with it.
pub fn build_config(raw: RawConfig, p: Preparations, cache_dir: Option<&str>) -> (r: Result<
    Config,
    String,
>)
    requires
        prepared(p, raw),
    ensures
        (match r {
            Ok(c) => config_error(raw, p) is None && config_matches(
                c,
                raw,
                p,
                rule_provider::opt_str_view(cache_dir),
            ),
            Err(e) => config_error(raw, p) == Some(e@),
        }),
{
    let general = general_config(&raw);
    let store = cache_dir.is_some();
    let geodata = match p.geodata {
        Ok(g) => g,
        Err(e) => return Err(e),
    };
    if let Err(e) = proxy_registry::rebuild_from_raw_impl(
        &raw,
        false,
        &p.providers,
        store,
        &p.outside,
    ) {
        return Err(e.message());
    }
    let dns = match dns::parse_dns(&raw, p.dns, cache_dir) {
        Ok(d) => d,
        Err(e) => return Err(e),
    };
    let built = match proxy_registry::rebuild_from_raw_impl(
        &raw,
        true,
        &p.providers,
        store,
        &p.outside,
    ) {
        Ok(b) => b,
        Err(e) => return Err(e.message()),
    };
    let rule_providers = load_sources(&raw, cache_dir, p.fetched, p.now);
    let listeners = match listener_config(&raw) {
        Ok(l) => l,
        Err(e) => return Err(e),
    };
    let device = match &raw.tun {
        Some(t) => tun::parse_tun_config(Some(t)),
        None => tun::parse_tun_config(None),
    };
    let tun = match device {
        Ok(t) => t,
        Err(e) => return Err(e.message()),
    };
    let api = match api_config(&raw) {
        Ok(a) => a,
        Err(e) => return Err(e),
    };
    let sniffer = match sniffer::parse_sniffer_config(&raw) {
        Ok(s) => s,
        Err(e) => return Err(e.message()),
    };
    if let Err(e) = p.auth {
        return Err(e);
    }
    let selections = match cache_dir {
        Some(d) => Some(paths::join(d, "selector-cache.json")),
        None => None,
    };
    Ok(
        Config {
            general,
            dns,
            proxies: built.registry,
            cycles: built.cycles,
            rule_providers,
            listeners,
            tun,
            api,
            sniffer,
            raw,
            selections,
            geodata,
        },
    )
}

/// The mark that may stand before a text in UTF-8.
pub open spec fn byte_order_mark() -> Seq<u8> {
    seq![0xEFu8, 0xBBu8, 0xBFu8]
}

/// The bytes of a document, without the mark that may stand before them.
pub open spec fn without_mark(b: Seq<u8>) -> Seq<u8> {
    if byte_order_mark().is_prefix_of(b) {
        b.skip(3)
    } else {
        b
    }
}

/// Whether a text tells that a file is not UTF-8: it names the file and the byte up
/// to which all is well.
pub open spec fn encoding_error(e: Seq<char>, path: Seq<char>, b: Seq<u8>) -> bool {
    exists|at: nat|
        e == #[trigger] encoding_message(path, at, text::str_fault(b)) && text::valid_up_to(b, at)
}

/// How it is told that a file is not UTF-8.
pub open spec fn encoding_message(path: Seq<char>, at: nat, reason: Seq<char>) -> Seq<char> {
    "config file "@ + path + " is not valid UTF-8 at byte "@ + number::decimal(at) + ": "@ + reason
        + ". Re-save the file with UTF-8 encoding."@
}

/// The text of a configuration file.
pub fn decode_document(path: &str, bytes: &Vec<u8>) -> (r: Result<String, String>)
    ensures
        (match r {
            Ok(t) => valid_utf8(without_mark(bytes@)) && t@ == decode_utf8(without_mark(bytes@)),
            Err(e) => !valid_utf8(without_mark(bytes@)) && encoding_error(
                e@,
                path@,
                without_mark(bytes@),
            ),
        }),
{
    let n: usize = bytes.len();
    let marked = n >= 3 && bytes[0] == 0xEF && bytes[1] == 0xBB && bytes[2] == 0xBF;
    let start: usize = if marked {
        3
    } else {
        0
    };
    let body = text::slice_of(bytes, start, n);
    proof {
        if marked {
            assert(byte_order_mark() =~= bytes@.take(3));
            assert(body@ =~= bytes@.skip(3));
        } else {
            assert(!byte_order_mark().is_prefix_of(bytes@)) by {
                if byte_order_mark().is_prefix_of(bytes@) {
                    assert(bytes@.take(3)[0] == bytes@[0]);
                    assert(bytes@.take(3)[1] == bytes@[1]);
                    assert(bytes@.take(3)[2] == bytes@[2]);
                }
            }
            assert(body@ =~= bytes@);
        }
    }
    match text::decode_at(body.as_slice()) {
        Ok(t) => Ok(t),
        Err((at, reason)) => {
            let d = number::to_decimal(at as u64);
            let e = "config file ".to_owned().concat(path).concat(
                " is not valid UTF-8 at byte ",
            ).concat(d.as_str()).concat(": ").concat(reason.as_str()).concat(
                ". Re-save the file with UTF-8 encoding.",
            );
            assert(e@ == encoding_message(path@, at as nat, text::str_fault(body@)));
            Err(e)
        },
    }
}

/// Where the rules of each source come from.
pub open spec fn rule_sources(
    p: Seq<(String, RawRuleProvider)>,
    cache_dir: Option<Seq<char>>,
) -> Seq<Result<SourceView, Seq<char>>> {
    p.map_values(
        |x: (String, RawRuleProvider)| rule_provider::source_of(x.0@, x.1, cache_dir),
    )
}

/// A source or an error as mathematical values.
pub open spec fn source_result(r: Result<Source, String>) -> Result<SourceView, Seq<char>> {
    match r {
        Ok(s) => Ok(s@),
        Err(e) => Err(e@),
    }
}

/// Rebuilds a configuration with a directory for files. Tells too where the rules
/// of each source come from.
pub fn rebuild_from_raw_with_cache_dir(
    raw: &RawConfig,
    cache_dir: Option<&str>,
    resolver: bool,
    outside: &Outside,
) -> (r: (Result<RebuildResult, RebuildError>, Vec<Result<Source, String>>))
    ensures
        proxy_registry::rebuild_ok(*raw, resolver, Seq::empty(), false, *outside, r.0),
        r.1@.map_values(|s: Result<Source, String>| source_result(s)) == rule_sources(
            rule_sources_in(*raw),
            rule_provider::opt_str_view(cache_dir),
        ),
{
    let built = proxy_registry::rebuild_from_raw_impl(
        raw,
        resolver,
        &text::no_strings(),
        false,
        outside,
    );
    let ghost dir = rule_provider::opt_str_view(cache_dir);
    let mut out: Vec<Result<Source, String>> = Vec::new();
    let ghost view = |s: Result<Source, String>| source_result(s);
    assert(out@.map_values(view) =~= Seq::empty());
    if let Some(p) = &raw.rule_providers {
        let ghost all = rule_sources(p@, dir);
        let mut i: usize = 0;
        while i < p.len()
            invariant
                i <= p@.len(),
                dir == rule_provider::opt_str_view(cache_dir),
                all == rule_sources(p@, dir),
                view == (|s: Result<Source, String>| source_result(s)),
                out@.map_values(view) == all.take(i as int),
            decreases p@.len() - i,
        {
            let ghost had = out@.map_values(view);
            let s = rule_provider::read_payload_bytes(p[i].0.as_str(), &p[i].1, cache_dir);
            assert(source_result(s) == all[i as int]);
            out.push(s);
            assert(out@.map_values(view) =~= had.push(all[i as int]));
            assert(all.take(i + 1) =~= all.take(i as int).push(all[i as int]));
            i += 1;
        }
        assert(all.take(i as int) =~= all);
    } else {
        assert(out@.map_values(view) =~= rule_sources(Seq::empty(), dir));
    }
    (built, out)
}

} // verus!
