use meow::config::assemble::{
    api_config, build_config, general_config, listener_config, rebuild_from_raw_with_cache_dir,
    Config, Preparations, TunnelMode,
};
use meow::config::dns::{
    install_fakeip, parse_dns, plan_fakeip, DnsMode, FakeIpStore, Gathered, SkipperMode,
};
use meow::config::ech::put_keys;
use meow::config::geo::{
    categories_named, collect_dns_policy_geosite_categories, countries_named,
    dns_policy_uses_geosite, ensure_geodata, is_live, numbers_named, parse_geodata, GeoDataConfig,
    GeoUsual, Present,
};
use meow::config::group::{
    parse_proxy_group_lenient_with_store, parse_proxy_group_with_store, GroupKind,
};
use meow::config::listener::{parse_listener_type, ListenerError, ListenerType};
use meow::config::nameserver::{
    build_policy_bootstrap_clients, resolve_policy_hostname_url, HostOrIp, NameServerEntry,
    NameServerUrl, PolicyServer, Read,
};
use meow::config::places::{
    default_asn_path, default_geoip_path, default_geosite_path, meow_config_dir, Surroundings,
};
use meow::config::proxy_registry::{
    first_named_proxy, rebuild_from_raw_runtime, rebuild_from_raw_with_resolver,
    sub_rule_references, Node, Outside, RebuildError,
};
use meow::config::raw::{
    parse_string_or_seq, HostsValue, RawConfig, RawDns, RawGeoDataConfig, RawGeoDataUrls,
    RawListener, RawNspValue, RawProxyGroup, RawRuleProvider, RawSniffProtocol, RawSniffer, RawTun,
};
use meow::config::rule_provider::{
    parse_behavior, parse_explicit_format, resolve_path, rules_of_items, Received,
    RuleSetBehavior, RuleSetFormat,
};
use meow::config::sniffer::{parse_sniffer_config, SnifferConfig, SnifferError};
use meow::config::tun::{parse_tun_config, tun_warnings, TunError};
use meow::config::vless::ech_keys;
use meow::config::yaml::{Options, Yaml, YamlNumber};
use meow::daemon::startup::{plan_listeners, run, Task};
use meow::net::{format_ip, IpAddr, SocketAddr};

fn text(s: &str) -> Option<String> {
    Some(s.to_string())
}

fn strings(v: &[&str]) -> Vec<String> {
    v.iter().map(|s| s.to_string()).collect()
}

fn sniffer(s: RawSniffer) -> RawConfig {
    RawConfig { sniffer: Some(s), ..Default::default() }
}

fn ports(list: &[u16]) -> RawSniffProtocol {
    RawSniffProtocol { ports: Some(list.to_vec()) }
}

#[test]
fn nothing_is_sniffed_without_a_section() {
    let c = parse_sniffer_config(&RawConfig::default()).unwrap();
    let usual = SnifferConfig::default();
    assert!(!c.enable && c.parse_pure_ip && !c.override_destination);
    assert_eq!(c.timeout, 100);
    assert_eq!(c.tls_ports, vec![443, 8443]);
    assert_eq!(c.http_ports, usual.http_ports);
}

#[test]
fn the_old_switch_looks_for_tls() {
    let raw = RawConfig { tproxy_sni: Some(true), ..Default::default() };
    let c = parse_sniffer_config(&raw).unwrap();
    assert!(c.enable);
    assert_eq!(c.tls_ports, vec![443]);
    assert!(c.http_ports.is_empty());
}

#[test]
fn a_sniffer_section_is_read() {
    let raw = sniffer(RawSniffer {
        enable: Some(true),
        timeout: Some(500),
        parse_pure_ip: Some(false),
        override_destination: Some(true),
        sniff: Some(vec![
            ("tls".to_string(), ports(&[443, 8443])),
            ("HTTP".to_string(), ports(&[80])),
            ("QUIC".to_string(), ports(&[443])),
        ]),
        force_domain: Some(strings(&["+.example.com"])),
        ..Default::default()
    });
    let c = parse_sniffer_config(&raw).unwrap();
    assert!(c.enable && !c.parse_pure_ip && c.override_destination);
    assert_eq!((c.timeout, c.tls_ports, c.http_ports), (500, vec![443, 8443], vec![80]));
    assert_eq!(c.force_domain, strings(&["+.example.com"]));
    assert!(c.skip_domain.is_empty());
}

#[test]
fn a_sniffer_section_can_be_wrong() {
    for wrong in [0, 60001] {
        let e = parse_sniffer_config(&sniffer(RawSniffer {
            timeout: Some(wrong),
            ..Default::default()
        }));
        assert_eq!(e.unwrap_err(), SnifferError::Timeout(wrong));
    }
    let on = RawSniffer { enable: Some(true), ..Default::default() };
    let e = parse_sniffer_config(&sniffer(on)).unwrap_err();
    assert_eq!(e, SnifferError::NoProtocols);
    assert_eq!(
        e.message(),
        "sniffer.enable is true but sniffer.sniff map is absent or empty"
    );
    let no_ports = RawSniffer {
        enable: Some(true),
        sniff: Some(vec![("QUIC".to_string(), ports(&[443]))]),
        ..Default::default()
    };
    let e = parse_sniffer_config(&sniffer(no_ports)).unwrap_err();
    assert_eq!(e, SnifferError::NoPorts);
    assert_eq!(
        SnifferError::Timeout(0).message(),
        "sniffer.timeout must be between 1 and 60000 ms, got 0"
    );
}

#[test]
fn a_tun_section_is_read() {
    let off = parse_tun_config(None).unwrap();
    assert!(!off.enable && off.auto_route && !off.dns_hijack);
    assert_eq!((off.mtu, off.inet4_address, off.udp_timeout), (1500, (0xac13_0001, 30), 60));
    let raw = RawTun {
        enable: true,
        device: text("meow0"),
        mtu: Some(9000),
        inet4_address: text("10.0.0.1/24"),
        auto_route: Some(false),
        dns_hijack: Some(strings(&["any:53"])),
        udp_timeout: Some(5),
        ..Default::default()
    };
    assert!(tun_warnings(&raw).is_empty());
    let on = parse_tun_config(Some(&raw)).unwrap();
    assert!(on.enable && !on.auto_route && on.dns_hijack);
    assert_eq!(on.device.as_deref(), Some("meow0"));
    assert_eq!((on.mtu, on.inet4_address, on.udp_timeout), (9000, (0x0a00_0001, 24), 5));
}

#[test]
fn a_tun_section_can_ask_for_what_is_not_supported() {
    let hijacks = || Some(strings(&["any:53", "tcp://any:5353", "53", "8.8.8.8"]));
    let ignored = [
        "tun.dns-hijack: entry 'tcp://any:5353' is not a :53 target; meow-rs only hijacks UDP port 53 — entry ignored",
        "tun.dns-hijack: entry '8.8.8.8' is not a :53 target; meow-rs only hijacks UDP port 53 — entry ignored",
    ];
    let entries = RawTun { dns_hijack: hijacks(), ..Default::default() };
    assert_eq!(tun_warnings(&entries), strings(&ignored));
    let never = RawTun { dns_hijack: hijacks(), udp_timeout: Some(0), ..Default::default() };
    assert_eq!(tun_warnings(&never), strings(&ignored));
    let low = RawTun { dns_hijack: hijacks(), mtu: Some(1), ..Default::default() };
    assert!(tun_warnings(&low).is_empty());
    let set = || Some(Yaml::Bool(false));
    let all = RawTun {
        stack: Some(Yaml::Text("gvisor".to_string())),
        strict_route: set(),
        auto_detect_interface: set(),
        auto_redirect: set(),
        inet6_address: set(),
        endpoint_independent_nat: set(),
        mtu_v6: set(),
        route_address: set(),
        route_exclude_address: set(),
        include_uid: set(),
        exclude_uid: Some(Yaml::Null),
        ..Default::default()
    };
    let told: Vec<String> = [
        "stack",
        "strict-route",
        "auto-detect-interface",
        "auto-redirect",
        "inet6-address",
        "endpoint-independent-nat",
        "mtu-v6",
        "route-address",
        "route-exclude-address",
        "include-uid",
        "exclude-uid",
    ]
    .iter()
    .map(|name| {
        format!(
            "tun.{name}: field is not supported in meow-rs and will be ignored; remove it to suppress this warning"
        )
    })
    .collect();
    assert_eq!(tun_warnings(&all), told);
    assert!(parse_tun_config(Some(&all)).is_ok());
}

#[test]
fn a_tun_section_can_be_wrong() {
    let low = RawTun { mtu: Some(1279), ..Default::default() };
    let e = parse_tun_config(Some(&low)).unwrap_err();
    assert!(matches!(e, TunError::Mtu(1279)));
    assert_eq!(
        e.message(),
        "tun.mtu: 1279 is below the minimum 1280 required by the userspace stack"
    );
    let address = RawTun { inet4_address: text("10.0.0.1"), ..Default::default() };
    let e = parse_tun_config(Some(&address)).unwrap_err();
    assert_eq!(
        e.message(),
        "tun.inet4-address: invalid CIDR '10.0.0.1': invalid IP address syntax"
    );
    let never = RawTun { udp_timeout: Some(0), ..Default::default() };
    let e = parse_tun_config(Some(&never)).unwrap_err();
    assert!(matches!(e, TunError::Timeout));
}

#[test]
fn general_settings_have_usual_values() {
    let g = general_config(&RawConfig::default());
    assert_eq!(g.mode, TunnelMode::Rule);
    assert_eq!((g.log_level.as_str(), g.bind_address.as_str()), ("info", "127.0.0.1"));
    assert!(!g.ipv6 && !g.allow_lan);
    let raw = RawConfig {
        mode: text("GLOBAL"),
        ipv6: Some(true),
        log_level: text("debug"),
        ..Default::default()
    };
    let g = general_config(&raw);
    assert_eq!((g.mode, g.ipv6, g.log_level.as_str()), (TunnelMode::Global, true, "debug"));
    let raw = RawConfig { mode: text("script"), ..Default::default() };
    assert_eq!(general_config(&raw).mode, TunnelMode::Rule);
}

#[test]
fn the_control_interface_is_set_up() {
    let raw = RawConfig {
        external_controller: text("127.0.0.1:9090"),
        secret: text("s3cret"),
        external_ui: text("/ui"),
        external_ui_name: text("panel"),
        external_ui_url: text(""),
        ..Default::default()
    };
    let a = api_config(&raw).unwrap();
    let address = a.external_controller.unwrap();
    assert_eq!((format_ip(address.ip).as_str(), address.port), ("127.0.0.1", 9090));
    assert_eq!(a.secret.as_deref(), Some("s3cret"));
    assert_eq!(a.external_ui.as_deref(), Some("/ui/panel"));
    assert_eq!(a.external_ui_url, None);
    let raw = RawConfig { external_controller: text("nowhere"), ..Default::default() };
    assert_eq!(
        api_config(&raw).unwrap_err(),
        "invalid external-controller socket address 'nowhere': invalid socket address syntax"
    );
}

fn listening(name: &str, port: u16) -> RawListener {
    RawListener {
        name: name.to_string(),
        listener_type: "mixed".to_string(),
        port,
        listen: None,
        tproxy_sni: None,
        max_connections: None,
    }
}

#[test]
fn listeners_bind_where_they_may() {
    let raw = RawConfig {
        mixed_port: Some(7890),
        bind_address: text("0.0.0.0"),
        ..Default::default()
    };
    let l = listener_config(&raw).unwrap();
    assert_eq!(l.bind_address, "127.0.0.1");
    assert_eq!(l.named.len(), 1);
    assert_eq!(l.named[0].listen, "127.0.0.1");
    let raw = RawConfig { allow_lan: Some(true), bind_address: text("0.0.0.0"), ..raw };
    assert_eq!(listener_config(&raw).unwrap().named[0].listen, "0.0.0.0");
    let raw = RawConfig {
        listeners: Some(vec![listening("a", 1), listening("b", 1)]),
        ..Default::default()
    };
    assert!(listener_config(&raw).is_err());
    assert_eq!(parse_listener_type("Socks5").unwrap(), ListenerType::Socks5);
    assert!(matches!(parse_listener_type("quic"), Err(ListenerError::UnknownType(t)) if t == "quic"));
}

fn dns(d: RawDns) -> RawConfig {
    RawConfig { dns: Some(d), ..Default::default() }
}

fn udp(ip: u32) -> NameServerEntry {
    NameServerEntry {
        url: NameServerUrl::Udp { addr: HostOrIp::Ip(IpAddr::V4(ip)), port: 53 },
        proxy: None,
    }
}

fn read(main: Vec<Read>, fallback: Vec<Read>) -> Gathered {
    Gathered {
        main,
        fallback,
        default: vec![],
        policy: vec![],
        sites: false,
        countries: true,
    }
}

#[test]
fn one_public_nameserver_is_asked_without_a_section() {
    let p = parse_dns(&RawConfig::default(), read(vec![], vec![]), None).unwrap();
    assert_eq!(p.main.len(), 1);
    assert!(matches!(
        p.main[0].url,
        NameServerUrl::Udp { addr: HostOrIp::Ip(IpAddr::V4(0x0808_0808)), port: 53 }
    ));
    assert_eq!(p.mode, DnsMode::Normal);
    assert!(p.use_hosts && !p.use_system_hosts && p.filter.is_none() && p.listen.is_none());
    assert!(p.policy.is_none() && p.fake_ip.is_none());
}

#[test]
fn a_dns_section_is_read() {
    let raw = RawConfig {
        hosts: Some(vec![("router".to_string(), HostsValue::One("10.0.0.1".to_string()))]),
        ..dns(RawDns {
            enable: Some(true),
            listen: text("127.0.0.1:1053"),
            enhanced_mode: text("fake-ip"),
            nameserver: Some(strings(&["1.1.1.1"])),
            fallback: Some(strings(&["8.8.8.8"])),
            nameserver_policy: Some(vec![(
                "+.example.com".to_string(),
                RawNspValue::One("10.0.0.53".to_string()),
            )]),
            ..Default::default()
        })
    };
    let gathered = Gathered {
        policy: vec![vec![PolicyServer { url: Ok(udp(0x0a00_0035).url), address: None }]],
        ..read(vec![Ok(udp(0x0101_0101))], vec![Ok(udp(0x0808_0808))])
    };
    let p = parse_dns(&raw, gathered, None).unwrap();
    assert_eq!((p.main.len(), p.fallback.len(), p.default.len()), (1, 1, 0));
    assert_eq!(p.mode, DnsMode::FakeIp);
    assert_eq!(
        p.listen,
        Some(SocketAddr { ip: IpAddr::V4(0x7f00_0001), port: 1053, scope: 0 })
    );
    assert!(p.use_system_hosts);
    let filter = p.filter.unwrap();
    assert!(filter.geoip_enabled);
    assert_eq!(filter.geoip_code, "CN");
    let policy = p.policy.unwrap();
    assert_eq!((policy.len(), policy[0].patterns.len(), policy[0].nameservers.len()), (1, 1, 1));
    assert!(matches!(p.fake_ip.unwrap().store, FakeIpStore::Memory(_)));
    assert_eq!(p.hosts.len(), 1);
    assert_eq!((p.hosts[0].0.as_str(), &p.hosts[0].1), ("router", &vec![IpAddr::V4(0x0a00_0001)]));
}

#[test]
fn a_dns_section_can_be_wrong() {
    let raw = dns(RawDns {
        enable: Some(true),
        nameserver: Some(strings(&["1.1.1.1", "bogus"])),
        ..Default::default()
    });
    let main: Vec<Read> = vec![Ok(udp(0x0101_0101)), Err("no such scheme".to_string())];
    assert_eq!(
        parse_dns(&raw, read(main, vec![]), None).unwrap_err(),
        "failed to parse nameserver 'bogus': no such scheme"
    );
    let raw = dns(RawDns { enable: Some(true), listen: text("53"), ..Default::default() });
    assert_eq!(
        parse_dns(&raw, read(vec![], vec![]), None).unwrap_err(),
        "invalid dns.listen socket address '53': invalid socket address syntax"
    );
    let raw = dns(RawDns {
        enable: Some(true),
        nameserver_policy: Some(vec![(
            "a.example".to_string(),
            RawNspValue::One("bogus".to_string()),
        )]),
        ..Default::default()
    });
    let unread = PolicyServer { url: Err("no such scheme".to_string()), address: None };
    let gathered = Gathered { policy: vec![vec![unread]], ..read(vec![], vec![]) };
    assert!(parse_dns(&raw, gathered, None).is_err());
    let raw = dns(RawDns {
        enable: Some(true),
        enhanced_mode: text("fake-ip"),
        fake_ip_range: text("ten"),
        ..Default::default()
    });
    assert!(parse_dns(&raw, read(vec![], vec![]), None).is_err());
}

#[test]
fn made_up_addresses_come_from_a_range() {
    let p = install_fakeip(&RawDns::default(), None).unwrap();
    assert!(!p.range.v6);
    assert!(matches!(p.store, FakeIpStore::Memory(0x10_0000)));
    assert_eq!(p.mode, SkipperMode::BlackList);
    let d = RawDns {
        fake_ip_range: text("10.1.0.0/16"),
        store_fake_ip: Some(true),
        fake_ip_filter: Some(strings(&["*.lan"])),
        fake_ip_filter_mode: text("whitelist"),
        ..Default::default()
    };
    let q = install_fakeip(&d, Some("/cache")).unwrap();
    assert!(matches!(&q.store, FakeIpStore::File(f) if f == "/cache/fakeip-v4.json"));
    assert_eq!((q.patterns, q.mode), (strings(&["*.lan"]), SkipperMode::WhiteList));
    let again = plan_fakeip(&d, p.range, None);
    assert!(matches!(&again.store, FakeIpStore::File(f) if f == "./fakeip-v4.json"));
    let wrong = RawDns { fake_ip_range: text("ten"), ..Default::default() };
    assert_eq!(
        install_fakeip(&wrong, None).unwrap_err(),
        "dns.fake-ip-range 'ten' is not a valid CIDR: invalid IP address syntax"
    );
}

fn usual_databases() -> GeoUsual {
    GeoUsual {
        mmdb_url: "http://d/c".to_string(),
        asn_url: "http://d/a".to_string(),
        geosite_url: "http://d/s".to_string(),
        interval: 24,
    }
}

fn nothing_read() -> Preparations {
    Preparations {
        geodata: parse_geodata(&RawConfig::default(), &usual_databases()),
        outside: Outside::default(),
        dns: read(vec![], vec![]),
        providers: vec![],
        fetched: vec![],
        now: 1_700_000_000,
        auth: Ok(()),
    }
}

fn built(raw: RawConfig) -> Config {
    build_config(raw, nothing_read(), Some("/cache")).unwrap()
}

fn named(name: &str, kind: &str) -> Options {
    vec![
        ("name".to_string(), Yaml::Text(name.to_string())),
        ("type".to_string(), Yaml::Text(kind.to_string())),
        ("server".to_string(), Yaml::Text("198.51.100.1".to_string())),
        ("port".to_string(), Yaml::Number(YamlNumber::Unsigned(1080))),
    ]
}

fn selector(name: &str, members: &[&str]) -> RawProxyGroup {
    RawProxyGroup {
        name: name.to_string(),
        group_type: "select".to_string(),
        proxies: Some(strings(members)),
        ..Default::default()
    }
}

#[test]
fn a_configuration_is_built_and_run() {
    let raw = RawConfig {
        mixed_port: Some(7890),
        external_controller: text("127.0.0.1:9090"),
        proxies: Some(vec![named("a", "socks5"), named("b", "http")]),
        proxy_groups: Some(vec![
            selector("pick", &["a", "b"]),
            RawProxyGroup {
                group_type: "url-test".to_string(),
                interval: Some(60),
                ..selector("auto", &["a"])
            },
        ]),
        ..Default::default()
    };
    let c = built(raw);
    for name in ["DIRECT", "REJECT", "a", "b", "pick", "auto"] {
        assert!(c.proxies.get(name).is_some(), "{}", name);
    }
    assert!(c.proxies.get("c").is_none());
    let first = first_named_proxy(&c.raw, &c.proxies).unwrap();
    assert_eq!(Some(first), c.proxies.get("a"));
    assert!(c.cycles.is_empty());
    let plan = run(&c);
    assert!(plan.complete);
    assert_eq!(plan.api.map(|a| a.port), Some(9090));
    assert_eq!(plan.listeners.len(), 1);
    assert_eq!((plan.listeners[0].address.port, plan.listeners[0].transparent), (7890, false));
    assert_eq!(plan.health_checks.len(), 1);
    assert_eq!(
        (plan.health_checks[0].group_name.as_str(), plan.health_checks[0].interval_secs),
        ("auto", 60)
    );
    assert_eq!(plan_listeners(&c.listeners.named).len(), 1);
    assert_eq!(plan.tasks, vec![Task::RefreshSubscriptions, Task::FetchDatabases]);
    assert_eq!((c.raw.mixed_port, c.raw.proxies.map(|p| p.len())), (Some(7890), Some(2)));
    assert_eq!((c.tun.enable, c.tun.mtu, c.tun.inet4_address), (false, 1500, (0xac13_0001, 30)));
}

#[test]
fn a_configuration_can_be_wrong() {
    let raw = RawConfig {
        rules: Some(strings(&["SUB-RULE,(NETWORK,tcp),missing"])),
        ..Default::default()
    };
    assert_eq!(sub_rule_references(&raw), strings(&["missing"]));
    let outside = Outside { references: sub_rule_references(&raw), ..Default::default() };
    let p = Preparations { outside, ..nothing_read() };
    assert!(build_config(raw, p, None).is_err());
    let raw = RawConfig { external_controller: text("nowhere"), ..Default::default() };
    assert!(build_config(raw, nothing_read(), None).is_err());
    let raw = RawConfig::default;
    let outside = Outside { databases: Err("no database".to_string()), ..Default::default() };
    let p = Preparations { outside, ..nothing_read() };
    assert_eq!(build_config(raw(), p, None).err().unwrap(), "no database");
    let p = Preparations { geodata: Err("no section".to_string()), ..nothing_read() };
    assert_eq!(build_config(raw(), p, None).err().unwrap(), "no section");
    let blocks = RawConfig {
        sub_rules: Some(vec![("b".to_string(), strings(&["MATCH"]))]),
        ..Default::default()
    };
    let unread = || Outside { blocks: Err("no block".to_string()), ..Default::default() };
    let p = Preparations { outside: unread(), ..nothing_read() };
    assert_eq!(build_config(blocks, p, None).err().unwrap(), "no block");
    let p = Preparations { outside: unread(), ..nothing_read() };
    assert!(build_config(raw(), p, None).is_ok());
    let p = Preparations { auth: Err("no users".to_string()), ..nothing_read() };
    assert_eq!(build_config(raw(), p, None).err().unwrap(), "no users");
}

#[test]
fn a_configuration_brings_its_sources_of_rules() {
    let raw = RawConfig {
        rule_providers: Some(vec![(
            "ads".to_string(),
            RawRuleProvider { payload: Some(strings(&["ads.example"])), ..source("inline") },
        )]),
        ..Default::default()
    };
    let none = Received { bytes: vec![], compiled: false, as_set: Ok(()) };
    let p = Preparations { fetched: vec![Ok(none)], ..nothing_read() };
    let c = build_config(raw, p, None).unwrap();
    assert_eq!(c.rule_providers.len(), 1);
    assert_eq!(c.rule_providers[0].source_name(), "ads");
    assert_eq!(c.rule_providers[0].updated_at_secs(), 1_700_000_000);
}

#[test]
fn proxies_are_rebuilt_while_running() {
    let raw = RawConfig {
        proxies: Some(vec![named("a", "socks5")]),
        proxy_groups: Some(vec![selector("pick", &["a"])]),
        ..Default::default()
    };
    let none: Vec<String> = vec![];
    let well = Outside::default();
    let plain = rebuild_from_raw_with_resolver(&raw, true, &well).ok().unwrap().registry;
    assert!(matches!(
        plain.nodes()[plain.get("DIRECT").unwrap()],
        Node::Direct { resolver: true, .. }
    ));
    let kept = rebuild_from_raw_runtime(&raw, true, &none, true, &well).ok().unwrap().registry;
    assert!(matches!(
        kept.nodes()[kept.get("pick").unwrap()],
        Node::Group { kind: GroupKind::Select { persistent: true }, .. }
    ));
    let (again, sources) = rebuild_from_raw_with_cache_dir(&raw, Some("/cache"), false, &well);
    assert!(again.is_ok());
    assert!(sources.is_empty());
    let failed = Outside { failed: vec![0], ..Default::default() };
    let without = rebuild_from_raw_with_resolver(&raw, true, &failed).ok().unwrap().registry;
    assert!(without.get("a").is_none());
    assert!(without.get("DIRECT").is_some());
    let unread = Outside { databases: Err("gone".to_string()), ..Default::default() };
    let e = rebuild_from_raw_with_resolver(&raw, true, &unread).err().unwrap();
    assert!(matches!(&e, RebuildError::Databases(m) if m == "gone"));
    assert_eq!(e.message(), "gone");
}

#[test]
fn the_section_on_databases_is_read() {
    let usual = usual_databases();
    let g = parse_geodata(&RawConfig::default(), &usual).unwrap();
    assert_eq!(g.mmdb_url, "http://d/c");
    assert_eq!((g.auto_update, g.auto_update_interval), (false, 24));
    let section = |interval: Option<u32>| RawConfig {
        geodata: Some(RawGeoDataConfig {
            mmdb_path: text("/db/c"),
            auto_update: true,
            auto_update_interval: interval,
            url: Some(RawGeoDataUrls { asn: text("http://x/a"), ..Default::default() }),
            ..Default::default()
        }),
        ..Default::default()
    };
    let g = parse_geodata(&section(Some(6)), &usual).unwrap();
    assert_eq!(g.mmdb_path, text("/db/c"));
    assert_eq!((g.asn_url.as_str(), g.geosite_url.as_str()), ("http://x/a", "http://d/s"));
    assert_eq!((g.auto_update, g.auto_update_interval), (true, 6));
    assert_eq!(
        parse_geodata(&section(Some(0)), &usual).err().unwrap(),
        "geodata.auto-update-interval: must be at least 1 hour"
    );
    let raw = RawConfig::default();
    let p = Preparations { geodata: Ok(g), ..nothing_read() };
    let c = build_config(raw, p, None).unwrap();
    assert_eq!(
        run(&c).tasks,
        vec![Task::RefreshSubscriptions, Task::FetchDatabases, Task::UpdateDatabases(6)]
    );
}

#[test]
fn selections_are_remembered_where_there_is_a_store() {
    let existing = strings(&["a"]);
    let none: Vec<String> = vec![];
    let g = selector("pick", &["a"]);
    let kept = parse_proxy_group_with_store(&g, &existing, &none, true).unwrap();
    assert!(matches!(kept.kind, GroupKind::Select { persistent: true }));
    let g = selector("pick", &["a", "gone"]);
    assert!(parse_proxy_group_with_store(&g, &existing, &none, false).is_err());
    let lenient = parse_proxy_group_lenient_with_store(&g, &existing, &none, false).unwrap();
    assert_eq!(lenient.members, strings(&["a"]));
}

#[test]
fn files_have_their_usual_places() {
    let e = Surroundings { home_dir: None, xdg_config_home: None, home: text("/home/u") };
    assert_eq!(meow_config_dir(&e), "/home/u/.config/meow");
    assert_eq!(default_geosite_path(&e), "/home/u/.config/meow/geosite.dat");
    let e = Surroundings { home_dir: text("/data"), ..e };
    assert_eq!(meow_config_dir(&e), "/data");
    assert!(default_geoip_path(&e).starts_with("/data/"));
    assert!(default_asn_path(&e).starts_with("/data/"));
    let e = Surroundings { home_dir: None, xdg_config_home: text("/x"), home: text("/home/u") };
    assert_eq!(meow_config_dir(&e), "/x/meow");
    let e = Surroundings { home_dir: None, xdg_config_home: None, home: None };
    assert_eq!(meow_config_dir(&e), ".");
    assert_eq!(default_geosite_path(&e), "./geosite.dat");
}

fn source(kind: &str) -> RawRuleProvider {
    RawRuleProvider {
        provider_type: kind.to_string(),
        behavior: "domain".to_string(),
        format: None,
        url: None,
        path: None,
        interval: None,
        payload: None,
    }
}

#[test]
fn sources_of_rules_are_described() {
    let s = source("http");
    assert_eq!(resolve_path(&s, None, "cn"), None);
    assert_eq!(
        resolve_path(&s, Some("/cache"), "cn").as_deref(),
        Some("/cache/rule-providers/cn.yaml")
    );
    let s = RawRuleProvider { path: text("cn.yaml"), format: text("text"), ..s };
    assert_eq!(resolve_path(&s, Some("/cache"), "cn").as_deref(), Some("/cache/cn.yaml"));
    assert_eq!(parse_explicit_format(&s).unwrap(), Some(RuleSetFormat::Text));
    assert!(parse_explicit_format(&RawRuleProvider { format: text("xml"), ..s }).is_err());
    assert_eq!(parse_behavior("ipcidr").unwrap(), RuleSetBehavior::IpCidr);
    assert!(parse_behavior("port").is_err());
    let items = Ok(Some(Some(vec![text("a"), None, text("b")])));
    assert_eq!(rules_of_items(&items).unwrap(), strings(&["a", "b"]));
    assert!(rules_of_items(&Ok(None)).is_err());
}

#[test]
fn names_in_rules_are_collected_once() {
    assert!(is_live("GEOIP,CN,DIRECT"));
    assert!(!is_live("# GEOIP,CN,DIRECT"));
    assert_eq!(countries_named(&strings(&["cn", "CN", "us"])), strings(&["CN", "US"]));
    assert_eq!(categories_named(&strings(&["Google", "google"])).len(), 1);
    assert_eq!(numbers_named(&strings(&["13335", "x", "13335"])), vec![13335]);
}

#[test]
fn policies_can_need_the_geosite_database() {
    let raw = dns(RawDns {
        enable: Some(true),
        nameserver_policy: Some(vec![(
            "geosite:cn,private".to_string(),
            RawNspValue::One("1.1.1.1".to_string()),
        )]),
        ..Default::default()
    });
    assert!(dns_policy_uses_geosite(&raw));
    assert_eq!(collect_dns_policy_geosite_categories(&raw), strings(&["cn", "private"]));
    assert!(!dns_policy_uses_geosite(&RawConfig::default()));
    let geo = GeoDataConfig {
        mmdb_path: None,
        asn_path: text("/db/asn.mmdb"),
        geosite_path: None,
        mmdb_url: "u1".to_string(),
        asn_url: "u2".to_string(),
        geosite_url: "u3".to_string(),
        auto_update: false,
        auto_update_interval: 24,
    };
    let e = Surroundings { home_dir: text("/d"), xdg_config_home: None, home: None };
    let lines = strings(&["IP-ASN,13335,DIRECT"]);
    let there = Present { geoip: false, asn: false, geosite: false };
    assert_eq!(
        ensure_geodata(&raw, &geo, &lines, there, &e),
        vec![
            ("u2".to_string(), "/db/asn.mmdb".to_string()),
            ("u3".to_string(), "/d/geosite.dat".to_string()),
        ]
    );
}

#[test]
fn nameservers_that_are_asked_for_others() {
    let hosted = NameServerEntry {
        url: NameServerUrl::Udp { addr: HostOrIp::Host("dns.example".to_string()), port: 53 },
        proxy: None,
    };
    let (from_default, at) = build_policy_bootstrap_clients(&vec![], &vec![udp(1), hosted]);
    assert!(!from_default);
    assert_eq!(at, vec![0]);
    let by_name = NameServerUrl::Tls {
        addr: HostOrIp::Host("dns.example".to_string()),
        port: 853,
        sni: "dns.example".to_string(),
    };
    let found = resolve_policy_hostname_url(by_name, Some(IpAddr::V4(7))).unwrap();
    assert!(matches!(
        found,
        NameServerUrl::Tls { addr: HostOrIp::Ip(IpAddr::V4(7)), port: 853, sni } if sni == "dns.example"
    ));
    let by_name = NameServerUrl::Tcp { addr: HostOrIp::Host("dns.example".to_string()), port: 53 };
    assert!(resolve_policy_hostname_url(by_name, None).is_none());
}

#[test]
fn one_text_is_a_list_of_one() {
    let one = Yaml::Text("Direct".to_string());
    assert_eq!(parse_string_or_seq(&one).unwrap(), Some(strings(&["Direct"])));
    let many = Yaml::Sequence(vec![Yaml::Text("a".to_string()), Yaml::Text("b".to_string())]);
    assert_eq!(parse_string_or_seq(&many).unwrap(), Some(strings(&["a", "b"])));
    assert_eq!(parse_string_or_seq(&Yaml::Null).unwrap(), None);
    assert!(parse_string_or_seq(&Yaml::Bool(true)).is_err());
    let many = RawNspValue::Many(strings(&["a", "b"]));
    assert_eq!(many.as_urls(), vec!["a", "b"]);
    assert_eq!(HostsValue::One("c".to_string()).as_slice(), vec!["c"]);
}

#[test]
fn fetched_keys_are_read_back() {
    let o: Options = vec![
        ("server".to_string(), Yaml::Text("a.example".to_string())),
        (
            "ech-opts".to_string(),
            Yaml::Mapping(vec![(Yaml::Text("enable".to_string()), Yaml::Bool(true))]),
        ),
    ];
    let p = put_keys(o, &vec![1, 2, 3]);
    let Yaml::Mapping(m) = &p[1].1 else { panic!("a mapping") };
    assert!(matches!(&m[1].1, Yaml::Text(t) if t == "AQID"));
    assert_eq!(ech_keys(Ok(vec![1, 2, 3])).unwrap(), vec![1, 2, 3]);
    assert!(ech_keys(Err("bad".to_string())).is_err());
}
