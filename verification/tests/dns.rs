use meow::config::assemble::{decode_document, TunnelMode};
use meow::config::dns::{
    build_fallback_filter, build_hosts_trie, merge_system_hosts, parse_optional_socket_addr,
    parse_system_hosts, HostList,
};
use meow::config::ech::{
    ech_in_answers, fetch_ech_from_dns, nameserver_tokens, parse_nameserver_token, preresolve_ech,
    query_of, servers_to_ask, system_nameservers, zone_to_look_up, EchEvent, EchServer, EchStep,
};
use meow::config::nameserver::{
    after_lookup, build_nameserver_policy, expand_policy_keys, parse_nameserver_entries,
    policy_patterns, resolve_policy_host, HostOrIp, LookupEvent, LookupStep, NameServerEntry,
    NameServerUrl, PolicyPattern, PolicyServer,
};
use meow::config::raw::{HostsValue, RawFallbackFilter};
use meow::config::yaml::{Options, Yaml, YamlNumber};
use meow::net::{format_ip, parse_ip, parse_socket, IpAddr, SocketAddr};

fn one(s: &str) -> HostsValue {
    HostsValue::One(s.to_string())
}

fn many(ss: &[&str]) -> HostsValue {
    HostsValue::Many(strings(ss))
}

fn strings(v: &[&str]) -> Vec<String> {
    v.iter().map(|s| s.to_string()).collect()
}

/// Looks a name up in the list by a rule of this file: an exact entry first, then the
/// wildcard with the longest suffix, which covers its root. The library gives the list
/// and no lookup, so the tests below show which entries stand in the list; that an exact
/// entry is found before a wildcard is this function's own rule, and the resolver's trie
/// is not tried here.
fn search<'a>(list: &'a HostList, name: &str) -> Option<&'a Vec<IpAddr>> {
    if let Some((_, ips)) = list.iter().rev().find(|(n, _)| n == name) {
        return Some(ips);
    }
    let mut rest = name;
    loop {
        let key = format!("+.{rest}");
        if let Some((_, ips)) = list.iter().rev().find(|(n, _)| *n == key) {
            return Some(ips);
        }
        match rest.split_once('.') {
            Some((_, r)) => rest = r,
            None => return None,
        }
    }
}

#[test]
fn build_hosts_trie_none_is_empty() {
    let list = build_hosts_trie(None).unwrap();
    assert!(search(&list, "example.com").is_none());
}

#[test]
fn build_hosts_trie_single_ip() {
    let map = vec![("example.com".to_string(), one("1.2.3.4"))];
    let list = build_hosts_trie(Some(&map)).unwrap();
    let v = search(&list, "example.com").expect("must hit");
    assert_eq!(v, &vec![IpAddr::V4(0x01020304)]);
}

#[test]
fn build_hosts_trie_many_ips() {
    let map = vec![("dual.test".to_string(), many(&["1.1.1.1", "::1"]))];
    let list = build_hosts_trie(Some(&map)).unwrap();
    assert_eq!(search(&list, "dual.test").expect("must hit").len(), 2);
}

#[test]
fn build_hosts_trie_malformed_ip_hard_error() {
    let map = vec![("bad.test".to_string(), one("not-an-ip"))];
    let msg = build_hosts_trie(Some(&map)).unwrap_err();
    assert!(msg.contains("not-an-ip") && msg.contains("bad.test"), "{msg}");
}

#[test]
fn build_hosts_trie_wildcard_and_bare() {
    let map = vec![("+.corp.example".to_string(), one("10.0.0.1"))];
    let list = build_hosts_trie(Some(&map)).unwrap();
    assert!(search(&list, "host.corp.example").is_some());
    assert!(search(&list, "corp.example").is_some());
}

#[test]
fn build_hosts_trie_star_wildcard_rewritten() {
    let map = vec![("*.corp.internal".to_string(), one("10.0.0.50"))];
    let list = build_hosts_trie(Some(&map)).unwrap();
    assert!(search(&list, "foo.corp.internal").is_some());
    assert!(search(&list, "corp.internal").is_some());
}

#[test]
fn build_hosts_trie_exact_overrides_wildcard() {
    let map = vec![
        ("*.corp.internal".to_string(), one("10.0.0.50")),
        ("dns.corp.internal".to_string(), one("10.0.0.53")),
    ];
    let list = build_hosts_trie(Some(&map)).unwrap();
    let exact = search(&list, "dns.corp.internal").expect("must hit exact");
    assert_eq!(exact.first().copied(), parse_ip("10.0.0.53"));
}

#[test]
fn the_hosts_file_is_merged_where_nothing_is_known() {
    let list = parse_system_hosts("# comment\n127.0.0.1 localhost  LOOP.\nbad x\n::1 v6\n");
    let names: Vec<&str> = list.iter().map(|(n, _)| n.as_str()).collect();
    assert_eq!(names, vec!["localhost", "loop", "v6"]);
    let merged = merge_system_hosts(&list, &vec![true, false, false]);
    let names: Vec<&str> = merged.iter().map(|(n, _)| n.as_str()).collect();
    assert_eq!(names, vec!["loop", "v6"]);
}

fn udp(host: &str) -> NameServerUrl {
    NameServerUrl::Udp {
        addr: match parse_ip(host) {
            Some(ip) => HostOrIp::Ip(ip),
            None => HostOrIp::Host(host.to_string()),
        },
        port: 53,
    }
}

#[test]
fn parse_nameserver_urls_quic_errors() {
    let servers = strings(&["quic://dns.adguard.com"]);
    let read = vec![Err("quic is not supported yet (M1.E-6)".to_string())];
    let msg = parse_nameserver_entries(&servers, read).unwrap_err();
    assert!(msg.contains("M1.E-6"), "{msg}");
}

#[test]
fn parse_nameserver_urls_unknown_scheme_errors_not_warns() {
    let servers = strings(&["8.8.8.8", "sdns://abc"]);
    let good = NameServerEntry {
        url: udp("8.8.8.8"),
        proxy: None,
    };
    let read = vec![Ok(good), Err("unknown scheme".to_string())];
    assert!(parse_nameserver_entries(&servers, read).is_err());
}

fn server(url: NameServerUrl) -> PolicyServer {
    PolicyServer {
        url: Ok(url),
        address: None,
    }
}

#[test]
fn parse_nameserver_policy_geosite_prefix_without_db_skips() {
    let keys = strings(&["geosite:cn"]);
    let servers = vec![vec![server(NameServerUrl::RCode { code: 0 })]];
    let pol = build_nameserver_policy(&keys, servers, false).unwrap();
    assert!(pol.is_empty());
}

#[test]
fn parse_nameserver_policy_geosite_prefix_matches_loaded_db() {
    let keys = strings(&["geosite:cn,private"]);
    let servers = vec![vec![server(NameServerUrl::RCode { code: 0 })]];
    let pol = build_nameserver_policy(&keys, servers, true).unwrap();
    assert_eq!(pol.len(), 1);
    assert!(matches!(&pol[0].patterns[0], PolicyPattern::Geosite(c) if c == "cn"));
    assert!(matches!(&pol[0].patterns[1], PolicyPattern::Geosite(c) if c == "private"));
}

#[test]
fn parse_nameserver_policy_all_invalid_urls_errors() {
    let keys = strings(&["corp.example"]);
    let servers = vec![vec![PolicyServer {
        url: Err("quic is not supported".to_string()),
        address: None,
    }]];
    let e = build_nameserver_policy(&keys, servers, false).unwrap_err();
    assert!(e.contains("corp.example"), "{e}");
}

#[test]
fn parse_nameserver_policy_wildcard_inserted() {
    let keys = strings(&["+.corp.internal"]);
    let servers = vec![vec![server(udp("192.168.1.53"))]];
    let pol = build_nameserver_policy(&keys, servers, false).unwrap();
    assert!(matches!(&pol[0].patterns[0], PolicyPattern::Wildcard(p) if p == "+.corp.internal"));
    assert_eq!(pol[0].nameservers.len(), 1);
}

#[test]
fn policy_keys_are_expanded() {
    assert_eq!(
        expand_policy_keys("geosite:cn,private"),
        strings(&["geosite:cn", "geosite:private"])
    );
    assert_eq!(policy_patterns("rule-set:x", true).len(), 0);
    assert!(matches!(&policy_patterns("Example.COM", false)[0], PolicyPattern::Exact(p) if p == "example.com"));
}

#[test]
fn policy_hosts_are_looked_up_in_turn() {
    assert!(matches!(resolve_policy_host(0), LookupStep::NotFound));
    assert!(matches!(resolve_policy_host(2), LookupStep::Ask(0)));
    let none = LookupEvent::Answer(vec![]);
    assert!(matches!(after_lookup(2, 0, &none), LookupStep::Ask(1)));
    assert!(matches!(after_lookup(2, 1, &none), LookupStep::NotFound));
    let found = LookupEvent::Answer(vec![IpAddr::V4(7), IpAddr::V4(8)]);
    assert!(matches!(after_lookup(2, 0, &found), LookupStep::Found(IpAddr::V4(7))));
}

#[test]
fn build_fallback_filter_defaults() {
    let ff = build_fallback_filter(None, false);
    assert_eq!(ff.geoip_code, "CN");
    assert!(ff.ipcidr.is_empty());
    assert!(ff.domain.is_empty());
}

#[test]
fn build_fallback_filter_ipcidr_gate() {
    let raw = RawFallbackFilter {
        geoip: Some(false),
        geoip_code: None,
        ipcidr: Some(strings(&["240.0.0.0/4", "rubbish"])),
        domain: None,
    };
    let ff = build_fallback_filter(Some(&raw), false);
    assert_eq!(ff.ipcidr.len(), 1);
    assert!(!ff.ipcidr[0].v6);
    assert_eq!((ff.ipcidr[0].address, ff.ipcidr[0].prefix), (240 << 24, 4));
    assert!(!ff.geoip_enabled);
}

#[test]
fn build_fallback_filter_domain_gate() {
    let raw = RawFallbackFilter {
        geoip: Some(false),
        geoip_code: None,
        ipcidr: None,
        domain: Some(strings(&["+.google.cn"])),
    };
    let ff = build_fallback_filter(Some(&raw), false);
    assert!(ff.domain.contains(&"+.google.cn".to_string()));
    assert!(ff.domain.contains(&"google.cn".to_string()));
    assert_eq!(ff.domain.len(), 2);
}

#[test]
fn parses_ipv4_nameserver() {
    let got = parse_nameserver_token("8.8.8.8", 0).unwrap();
    assert_eq!(Some(got), parse_socket("8.8.8.8:53"));
}

#[test]
fn parses_ipv6_nameserver_without_zone() {
    let got = parse_nameserver_token("2001:4860:4860::8888", 0).unwrap();
    assert!(matches!(got.ip, IpAddr::V6(_)));
    assert_eq!((got.port, got.scope), (53, 0));
}

#[test]
fn ipv6_zone_id_does_not_get_rejected() {
    assert_eq!(zone_to_look_up("fe80::1%en0").as_deref(), Some("en0"));
    let got = parse_nameserver_token("fe80::1%en0", 0).expect("must parse");
    assert!(matches!(got.ip, IpAddr::V6(_)));
    assert_eq!(got.port, 53);
    assert_eq!(parse_nameserver_token("fe80::1%en0", 9).unwrap().scope, 9);
}

#[test]
fn ipv6_numeric_zone_id_parses() {
    let got = parse_nameserver_token("fe80::1%4", 0).unwrap();
    assert_eq!(got.scope, 4);
}

#[test]
fn garbage_token_returns_none() {
    assert!(parse_nameserver_token("not-an-ip", 0).is_none());
    assert!(parse_nameserver_token("", 0).is_none());
}

#[test]
fn nameservers_of_the_system_are_found() {
    let tokens = nameserver_tokens("# c\nnameserver 1.1.1.1\nsearch x\nnameserver  9.9.9.9 extra\n");
    assert_eq!(tokens, strings(&["1.1.1.1", "9.9.9.9"]));
    let ns = system_nameservers(&tokens, &vec![0, 0]);
    assert_eq!(ns.len(), 2);
    let fallback = system_nameservers(&Vec::new(), &Vec::new());
    assert!(!fallback.is_empty());
    let ask = servers_to_ask(&ns);
    assert_eq!(ask.len(), 4);
    assert!(matches!(ask[3], EchServer::Doh(_)));
}

#[test]
fn invalid_utf8_yields_actionable_error() {
    let path = "/tmp/meow-cfg.yaml";
    let msg = decode_document(path, &b"port: 7890\nrubbish: \xFF\xFE\n".to_vec()).unwrap_err();
    assert!(msg.contains("not valid UTF-8"), "{msg}");
    assert!(msg.contains(path), "{msg}");
}

#[test]
fn utf8_bom_is_stripped() {
    let mut bytes = b"\xEF\xBB\xBF".to_vec();
    bytes.extend_from_slice(b"port: 7890\n");
    assert_eq!(decode_document("c.yaml", &bytes).unwrap(), "port: 7890\n");
}

#[test]
fn configured_socket_addresses_are_validated() {
    let local = SocketAddr {
        ip: IpAddr::V4(0x7f000001),
        port: 53,
        scope: 0,
    };
    assert_eq!(
        parse_optional_socket_addr("dns.listen", Some("127.0.0.1:53")).unwrap(),
        Some(local)
    );
    assert!(parse_optional_socket_addr("dns.listen", Some("localhost")).is_err());
    assert!(parse_optional_socket_addr("dns.listen", Some("127.0.0.1:70000")).is_err());
    assert!(parse_optional_socket_addr("external-controller", Some("[::1]:9090")).is_ok());
    assert_eq!(parse_optional_socket_addr("dns.listen", None).unwrap(), None);
}

#[test]
fn addresses_are_read_and_written() {
    for s in [
        "0.0.0.0",
        "255.255.255.255",
        "::",
        "::1",
        "2001:db8::8:800:200c:417a",
        "fe80::",
        "1:2:3:4:5:6:7:8",
        "::ffff:1.2.3.4",
    ] {
        let ip = parse_ip(s).expect(s);
        assert_eq!(format_ip(ip), s);
    }
    for s in ["", "1.2.3", "01.2.3.4", "1.2.3.256", ":::", "1::2::3", "g::"] {
        assert!(parse_ip(s).is_none(), "{s}");
    }
}

fn value(v: &serde_yaml::Value) -> Yaml {
    match v {
        serde_yaml::Value::Null => Yaml::Null,
        serde_yaml::Value::Bool(b) => Yaml::Bool(*b),
        serde_yaml::Value::Number(n) => Yaml::Number(YamlNumber::Unsigned(n.as_u64().unwrap())),
        serde_yaml::Value::String(s) => Yaml::Text(s.clone()),
        serde_yaml::Value::Sequence(s) => Yaml::Sequence(s.iter().map(value).collect()),
        serde_yaml::Value::Mapping(m) => {
            Yaml::Mapping(m.iter().map(|(k, v)| (value(k), value(v))).collect())
        }
        serde_yaml::Value::Tagged(t) => value(&t.value),
    }
}

fn yaml_map(s: &str) -> Options {
    let v: serde_yaml::Value = serde_yaml::from_str(s).unwrap();
    v.as_mapping()
        .unwrap()
        .iter()
        .map(|(k, v)| (k.as_str().unwrap().to_string(), value(v)))
        .collect()
}

fn unchanged(text: &str) {
    let o = yaml_map(text);
    assert!(query_of(&o).is_none());
    let before = format!("{o:?}");
    let after = preresolve_ech(vec![o], &vec![Some(vec![1])]);
    assert_eq!(format!("{:?}", after[0]), before);
}

#[test]
fn preresolve_skips_when_no_ech_opts() {
    unchanged("name: plain\ntype: vless\nserver: example.com\nport: 443\nuuid: b831381d-6324-4d53-ad4f-8cda48b30811\n");
}

#[test]
fn preresolve_skips_when_disabled() {
    unchanged("name: p\nserver: example.com\nech-opts:\n  enable: false\n  query-server-name: this-name-must-not-be-resolved.invalid\n");
}

#[test]
fn preresolve_skips_when_inline_config_present() {
    unchanged("name: p\nserver: example.com\nech-opts:\n  enable: true\n  config: AEX/CgBA/wgAQA0AIAAg\n  query-server-name: this-name-must-not-be-resolved.invalid\n");
}

#[test]
fn preresolve_warns_when_no_query_target() {
    unchanged("name: dangling\ntype: vless\nech-opts:\n  enable: true\n");
}

#[test]
fn preresolve_handles_non_mapping_ech_opts() {
    unchanged("name: weird\nserver: example.com\nech-opts: \"this should be a mapping but is a string\"\n");
}

#[test]
fn preresolve_is_idempotent_when_inline_present() {
    unchanged("name: p\nserver: example.com\nech-opts:\n  enable: true\n  config: AEX/CgBA/wgAQA0AIAAg\n");
}

#[test]
fn preresolve_runs_across_multiple_proxies() {
    let texts = [
        "name: a\nserver: example.com\n",
        "name: b\nserver: example.com\nech-opts:\n  enable: false\n",
        "name: c\nserver: example.com\nech-opts:\n  enable: true\n  config: AEX/CgBA/wgAQA0AIAAg\n",
    ];
    let all: Vec<Options> = texts.iter().map(|t| yaml_map(t)).collect();
    let before = format!("{all:?}");
    let after = preresolve_ech(all, &vec![None, None, None]);
    assert_eq!(format!("{after:?}"), before);
}

#[test]
fn fetched_keys_are_put_into_the_options() {
    let o = yaml_map("name: p\nserver: example.com\nech-opts:\n  enable: true\n  query-server-name: q.example\n");
    assert_eq!(query_of(&o).as_deref(), Some("q.example"));
    let after = preresolve_ech(vec![o], &vec![Some(vec![0, 1, 2, 3])]);
    assert!(query_of(&after[0]).is_none());
    assert!(format!("{:?}", after[0]).contains("AAECAw=="));
    let once = format!("{after:?}");
    let twice = preresolve_ech(after, &vec![Some(vec![9, 9])]);
    assert_eq!(format!("{twice:?}"), once);
}

#[test]
fn servers_for_keys_are_asked_in_turn() {
    let failed = EchEvent::Failed("timeout".to_string());
    assert!(matches!(fetch_ech_from_dns("x", 2, 0, &failed), EchStep::Ask(1)));
    match fetch_ech_from_dns("x", 2, 1, &failed) {
        EchStep::Done(Err(e)) => assert!(e.contains("timeout"), "{e}"),
        other => panic!("{other:?}"),
    }
    let mut reply = vec![0, 1, 0x81, 0x80, 0, 1, 0, 0, 0, 0, 0, 0];
    reply.extend_from_slice(&[1, b'x', 0, 0, 65, 0, 1]);
    match fetch_ech_from_dns("x", 2, 0, &EchEvent::Reply(reply)) {
        EchStep::Done(Err(_)) | EchStep::Ask(1) => {}
        other => panic!("{other:?}"),
    }
    assert!(ech_in_answers("x", &Vec::new()).is_err());
}

#[test]
fn keys_are_read_from_an_answer() {
    let mut reply = vec![0, 1, 0x81, 0x80, 0, 1, 0, 1, 0, 0, 0, 0];
    reply.extend_from_slice(&[1, b'x', 0, 0, 65, 0, 1]);
    reply.extend_from_slice(&[1, b'x', 0, 0, 65, 0, 1, 0, 0, 0, 60, 0, 11]);
    reply.extend_from_slice(&[0, 1, 0, 0, 5, 0, 4, 0, 2, 0xAA, 0xBB]);
    match fetch_ech_from_dns("x", 1, 0, &EchEvent::Reply(reply)) {
        EchStep::Done(Ok(k)) => assert!(k.ends_with(&[0xAA, 0xBB]), "{k:?}"),
        other => panic!("{other:?}"),
    }
}

#[test]
fn modes_are_named() {
    assert_eq!(TunnelMode::parse("Global"), Some(TunnelMode::Global));
    assert_eq!(TunnelMode::parse("rule").unwrap().name(), "rule");
    assert_eq!(TunnelMode::parse("tunnel"), None);
}
