use meow::config::group::{
    parse_lb_strategy, parse_proxy_group, parse_proxy_group_lenient, GroupKind, LbStrategy,
};
use meow::config::outbound::{parse_proxy, Outbound};
use meow::config::proxy::serialize_plugin_opts;
use meow::config::proxy_registry::{
    rebuild_from_raw, Node, Outside, RebuildError, RebuildResult,
};
use meow::config::raw::{RawConfig, RawProxyGroup};
use meow::config::yaml::{Options, Yaml, YamlNumber};

fn value(v: &serde_yaml::Value) -> Yaml {
    match v {
        serde_yaml::Value::Null => Yaml::Null,
        serde_yaml::Value::Bool(b) => Yaml::Bool(*b),
        serde_yaml::Value::Number(n) => Yaml::Number(if let Some(u) = n.as_u64() {
            YamlNumber::Unsigned(u)
        } else if let Some(i) = n.as_i64() {
            YamlNumber::Negative(i)
        } else {
            YamlNumber::Other(n.to_string())
        }),
        serde_yaml::Value::String(s) => Yaml::Text(s.clone()),
        serde_yaml::Value::Sequence(s) => Yaml::Sequence(s.iter().map(value).collect()),
        serde_yaml::Value::Mapping(m) => {
            Yaml::Mapping(m.iter().map(|(k, v)| (value(k), value(v))).collect())
        }
        serde_yaml::Value::Tagged(t) => value(&t.value),
    }
}

fn parsed(yaml: &str) -> serde_yaml::Value {
    serde_yaml::from_str(yaml).unwrap()
}

fn options(yaml: &str) -> Options {
    parsed(yaml)
        .as_mapping()
        .unwrap()
        .iter()
        .map(|(k, v)| (k.as_str().unwrap().to_string(), value(v)))
        .collect()
}

fn error(yaml: &str) -> String {
    match parse_proxy(&options(yaml)) {
        Err(e) => e,
        Ok(_) => panic!("must hard-error: {yaml}"),
    }
}

fn strings(v: &[&str]) -> Vec<String> {
    v.iter().map(|s| s.to_string()).collect()
}

#[test]
fn test_serialize_plugin_opts_map() {
    let yaml = value(&parsed("mode: websocket\nhost: example.com\ntls: true\n"));
    let result = serialize_plugin_opts(&yaml).unwrap();
    assert!(result.contains("mode=websocket"));
    assert!(result.contains("host=example.com"));
    assert!(result.contains("tls=true"));
    assert_eq!(result.matches(';').count(), 2);
}

#[test]
fn test_serialize_plugin_opts_string_passthrough() {
    let yaml = Yaml::Text("obfs=http;obfs-host=example.com".to_string());
    let result = serialize_plugin_opts(&yaml).unwrap();
    assert_eq!(result, "obfs=http;obfs-host=example.com");
}

#[test]
fn test_serialize_plugin_opts_empty_map() {
    assert!(serialize_plugin_opts(&Yaml::Mapping(Vec::new())).is_none());
}

#[test]
fn test_serialize_plugin_opts_null() {
    assert!(serialize_plugin_opts(&Yaml::Null).is_none());
}

#[test]
fn test_serialize_plugin_opts_number_value() {
    let result = serialize_plugin_opts(&value(&parsed("port: 8080"))).unwrap();
    assert_eq!(result, "port=8080");
}

#[test]
fn parse_direct_without_dns_ok() {
    assert!(parse_proxy(&options("name: my-direct\ntype: direct\n")).is_ok());
}

#[test]
fn parse_direct_with_single_dns_string() {
    assert!(parse_proxy(&options("name: lan\ntype: direct\ndns: 192.168.1.1\n")).is_ok());
}

#[test]
fn parse_direct_with_dns_list_and_explicit_port() {
    let o = options("name: lan\ntype: direct\ndns:\n  - 192.168.1.1\n  - 8.8.8.8:53\n");
    match parse_proxy(&o).unwrap().adapter() {
        Outbound::Direct(d) => {
            let ns = d.nameservers.as_ref().unwrap();
            assert_eq!(ns.len(), 2);
            assert_eq!((ns[0].port, ns[1].port), (53, 53));
        }
        _ => panic!("expected a direct proxy"),
    }
}

#[test]
fn parse_direct_rejects_invalid_dns_entry() {
    let err = error("name: bad\ntype: direct\ndns: not-an-ip\n");
    assert!(err.contains("not a valid IP or host:port"), "msg: {err}");
}

#[test]
fn parse_direct_rejects_empty_dns_list() {
    let err = error("name: bad\ntype: direct\ndns: []\n");
    assert!(err.contains("dns list is empty"), "msg: {err}");
}

#[test]
fn parse_direct_rejects_wrong_dns_type() {
    let err = error("name: bad\ntype: direct\ndns: 53\n");
    assert!(err.contains("dns must be a string or list"), "msg: {err}");
}

#[test]
fn parse_anytls_minimum_fields_ok() {
    let o = options("name: jp\ntype: anytls\nserver: 1.2.3.4\nport: 443\npassword: secret\n");
    assert!(parse_proxy(&o).is_ok());
}

#[test]
fn parse_anytls_with_sni_and_skip_verify_ok() {
    let o = options(
        "name: jp\ntype: anytls\nserver: 1.2.3.4\nport: 443\npassword: secret\nsni: example.com\nskip-cert-verify: true\n",
    );
    match parse_proxy(&o).unwrap().adapter() {
        Outbound::AnyTls(p) => {
            assert_eq!(p.sni.as_deref(), Some("example.com"));
            assert!(p.skip_cert_verify);
        }
        _ => panic!("expected AnyTLS"),
    }
}

#[test]
fn parse_anytls_rejects_missing_password() {
    let err = error("name: jp\ntype: anytls\nserver: 1.2.3.4\nport: 443\n");
    assert!(err.contains("missing password"), "msg: {err}");
}

#[test]
fn parse_anytls_rejects_zero_port() {
    let err = error("name: jp\ntype: anytls\nserver: 1.2.3.4\nport: 0\npassword: secret\n");
    assert!(err.contains("port must be non-zero"), "msg: {err}");
}

#[test]
fn parse_hysteria2_minimum_fields_ok() {
    let o = options("name: jp-hy2\ntype: hysteria2\nserver: 1.2.3.4\nport: 443\npassword: secret\n");
    assert!(parse_proxy(&o).is_ok());
}

#[test]
fn parse_hysteria2_rejects_missing_password() {
    let err = error("name: jp-hy2\ntype: hysteria2\nserver: 1.2.3.4\nport: 443\n");
    assert!(err.contains("missing password"), "msg: {err}");
}

#[test]
fn parse_hysteria2_rejects_zero_port() {
    let err = error("name: jp-hy2\ntype: hysteria2\nserver: 1.2.3.4\nport: 0\npassword: secret\n");
    assert!(err.contains("port must be non-zero"), "msg: {err}");
}

#[test]
fn parse_hysteria2_rejects_empty_password() {
    let err = error("name: jp-hy2\ntype: hysteria2\nserver: 1.2.3.4\nport: 443\npassword: ''\n");
    assert!(err.contains("password must not be empty"), "msg: {err}");
}

#[test]
fn other_protocols_are_parsed() {
    let o = options(
        "name: s\ntype: ss\nserver: h\nport: 8388\ncipher: aes-256-gcm\npassword: p\nudp: true\n",
    );
    match parse_proxy(&o).unwrap().adapter() {
        Outbound::Shadowsocks(p) => {
            assert_eq!((p.server.as_str(), p.port), ("h", 8388));
            assert_eq!(p.cipher, "aes-256-gcm");
            assert!(p.udp);
        }
        _ => panic!("expected Shadowsocks"),
    }
    let o = options("name: t\ntype: trojan\nserver: h\nport: 443\npassword: p\n");
    assert!(matches!(parse_proxy(&o).unwrap().adapter(), Outbound::Trojan(_)));
    let o = options("name: t\ntype: http\nserver: h\nport: 80\nusername: u\npassword: p\n");
    match parse_proxy(&o).unwrap().adapter() {
        Outbound::Http(p) => assert_eq!(p.auth, Some(("u".to_string(), "p".to_string()))),
        _ => panic!("expected HTTP"),
    }
    let o = options("name: t\ntype: socks5\nserver: h\nport: 1080\n");
    assert!(matches!(parse_proxy(&o).unwrap().adapter(), Outbound::Socks5(_)));
}

#[test]
fn parse_load_balance_default_strategy() {
    assert!(matches!(parse_lb_strategy(None).unwrap(), LbStrategy::RoundRobin));
}

#[test]
fn parse_load_balance_explicit_round_robin() {
    let s = parse_lb_strategy(Some("round-robin")).unwrap();
    assert!(matches!(s, LbStrategy::RoundRobin));
}

#[test]
fn parse_load_balance_consistent_hashing() {
    let s = parse_lb_strategy(Some("consistent-hashing")).unwrap();
    assert!(matches!(s, LbStrategy::ConsistentHashing));
}

#[test]
fn parse_load_balance_unknown_strategy_hard_errors() {
    let err = parse_lb_strategy(Some("sticky")).unwrap_err();
    assert!(err.contains("unknown strategy"), "{err}");
    assert!(err.contains("Class A"), "{err}");
}

#[test]
fn parse_load_balance_case_insensitive_strategy() {
    assert!(!parse_lb_strategy(Some("Round-Robin")).unwrap_err().is_empty());
    assert!(!parse_lb_strategy(Some("ROUND-ROBIN")).unwrap_err().is_empty());
}

fn relay(proxies: &[&str]) -> RawProxyGroup {
    RawProxyGroup {
        name: "r".to_string(),
        group_type: "relay".to_string(),
        proxies: Some(strings(proxies)),
        ..Default::default()
    }
}

#[test]
fn relay_single_proxy_hard_errors_at_parse() {
    let err = parse_proxy_group(&relay(&["DIRECT"]), &strings(&["DIRECT"]), &Vec::new())
        .expect_err("single-proxy relay must error");
    assert!(err.contains("at least 2"), "{err}");
}

#[test]
fn relay_empty_proxies_hard_errors_at_parse() {
    assert!(parse_proxy_group(&relay(&[]), &Vec::new(), &Vec::new()).is_err());
}

#[test]
fn relay_url_field_warns_not_errors() {
    let g = RawProxyGroup {
        url: Some("https://example.com/test".to_string()),
        ..relay(&["DIRECT", "REJECT"])
    };
    parse_proxy_group(&g, &strings(&["DIRECT", "REJECT"]), &Vec::new())
        .expect("relay with url must not hard-error");
}

#[test]
fn relay_interval_field_warns_not_errors() {
    let g = RawProxyGroup {
        interval: Some(300),
        ..relay(&["DIRECT", "REJECT"])
    };
    parse_proxy_group(&g, &strings(&["DIRECT", "REJECT"]), &Vec::new())
        .expect("relay with interval must not hard-error");
}

#[test]
fn relay_url_and_interval_warn_not_errors() {
    let g = RawProxyGroup {
        url: Some("https://example.com/test".to_string()),
        interval: Some(300),
        ..relay(&["DIRECT", "REJECT"])
    };
    let p = parse_proxy_group(&g, &strings(&["DIRECT", "REJECT"]), &Vec::new())
        .expect("relay with url+interval must not hard-error");
    assert_eq!(p.kind, GroupKind::Relay);
    assert_eq!(p.members, strings(&["DIRECT", "REJECT"]));
}

#[test]
fn a_lenient_group_leaves_unknown_members_out() {
    let g = RawProxyGroup {
        name: "g".to_string(),
        group_type: "select".to_string(),
        proxies: Some(strings(&["DIRECT", "ghost"])),
        ..Default::default()
    };
    let known = strings(&["DIRECT"]);
    assert!(parse_proxy_group(&g, &known, &Vec::new()).is_err());
    let p = parse_proxy_group_lenient(&g, &known, &Vec::new()).unwrap();
    assert_eq!(p.members, known);
}

fn proxy(name: &str, dialer: Option<&str>) -> Options {
    let mut o = vec![
        ("name".to_string(), Yaml::Text(name.to_string())),
        ("type".to_string(), Yaml::Text("direct".to_string())),
    ];
    if let Some(d) = dialer {
        o.push(("dialer-proxy".to_string(), Yaml::Text(d.to_string())));
    }
    o
}

fn rebuilt(proxies: Vec<Options>) -> RebuildResult {
    let raw = RawConfig {
        proxies: Some(proxies),
        ..Default::default()
    };
    rebuild_from_raw(&raw, &Outside::default()).ok().unwrap()
}

fn was_wrapped(r: &RebuildResult, name: &str) -> bool {
    let i = r.registry.get(name).expect("present");
    matches!(r.registry.nodes()[i], Node::Dialed { .. })
}

#[test]
fn wraps_proxy_with_dialer() {
    let r = rebuilt(vec![proxy("A", Some("fast")), proxy("fast", None)]);
    assert!(was_wrapped(&r, "A"));
    assert!(!was_wrapped(&r, "fast"));
}

#[test]
fn self_reference_is_skipped() {
    let r = rebuilt(vec![proxy("A", Some("A"))]);
    assert!(!was_wrapped(&r, "A"));
}

#[test]
fn missing_dialer_is_skipped() {
    let r = rebuilt(vec![proxy("A", Some("ghost"))]);
    assert!(!was_wrapped(&r, "A"));
}

#[test]
fn cycle_is_detected_and_skipped() {
    let r = rebuilt(vec![proxy("A", Some("B")), proxy("B", Some("A"))]);
    assert!(!was_wrapped(&r, "A"));
    assert!(!was_wrapped(&r, "B"));
    assert_eq!(r.cycles.len(), 2);
}

#[test]
fn what_leads_into_a_cycle_is_left_alone() {
    let r = rebuilt(vec![
        proxy("far", Some("near")),
        proxy("near", Some("A")),
        proxy("A", Some("B")),
        proxy("B", Some("A")),
        proxy("C", Some("D")),
        proxy("D", None),
    ]);
    for name in ["far", "near", "A", "B"] {
        assert!(!was_wrapped(&r, name), "{name}");
    }
    assert!(was_wrapped(&r, "C"));
    assert_eq!(r.cycles.len(), 4);
}

#[test]
fn nested_chain_wraps_deepest_first() {
    let r = rebuilt(vec![proxy("A", Some("B")), proxy("B", Some("C")), proxy("C", None)]);
    assert!(was_wrapped(&r, "A"));
    assert!(was_wrapped(&r, "B"));
    assert!(!was_wrapped(&r, "C"));
    let a = &r.registry.nodes()[r.registry.get("A").unwrap()];
    let b = r.registry.get("B").unwrap();
    assert!(matches!(a, Node::Dialed { dialer, .. } if *dialer == b));
}

#[test]
fn built_in_proxies_and_the_global_group_are_there() {
    let r = rebuilt(vec![proxy("mine", None)]);
    for name in ["DIRECT", "REJECT", "REJECT-DROP", "GLOBAL", "mine"] {
        assert!(r.registry.get(name).is_some(), "{name}");
    }
    assert!(r.registry.get("ghost").is_none());
    let g = &r.registry.nodes()[r.registry.get("GLOBAL").unwrap()];
    assert!(matches!(g, Node::Group { members, .. } if members.len() == 4));
}

#[test]
fn groups_may_stand_before_their_members() {
    let group = |name: &str, members: &[&str]| RawProxyGroup {
        name: name.to_string(),
        group_type: "select".to_string(),
        proxies: Some(strings(members)),
        ..Default::default()
    };
    let raw = RawConfig {
        proxies: Some(vec![proxy("p", None)]),
        proxy_groups: Some(vec![group("outer", &["inner"]), group("inner", &["p"])]),
        ..Default::default()
    };
    let r = rebuild_from_raw(&raw, &Outside::default()).ok().unwrap();
    let inner = r.registry.get("inner").unwrap();
    let outer = &r.registry.nodes()[r.registry.get("outer").unwrap()];
    assert!(matches!(outer, Node::Group { members, .. } if *members == vec![inner]));
    let turned = RawConfig {
        proxies: Some(vec![proxy("p", None)]),
        proxy_groups: Some(vec![group("inner", &["p"]), group("outer", &["inner"])]),
        ..Default::default()
    };
    let t = rebuild_from_raw(&turned, &Outside::default()).ok().unwrap();
    let (mut a, mut b) = (r.registry.names(), t.registry.names());
    a.sort();
    b.sort();
    assert_eq!(a, b);
    let inner = t.registry.get("inner").unwrap();
    let outer = &t.registry.nodes()[t.registry.get("outer").unwrap()];
    assert!(matches!(outer, Node::Group { members, .. } if *members == vec![inner]));
}

#[test]
fn an_undefined_block_of_rules_is_named() {
    let raw = RawConfig::default();
    let outside = Outside { references: strings(&["nowhere"]), ..Default::default() };
    match rebuild_from_raw(&raw, &outside) {
        Err(e @ RebuildError::UndefinedSubRule(_)) => assert_eq!(
            e.message(),
            "rules: SUB-RULE,nowhere references undefined sub-rule block"
        ),
        _ => panic!("must fail"),
    }
}
