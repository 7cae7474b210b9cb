use meow::api::providers::{
    configured_format, get_listeners, provider_healthcheck, provider_to_info, refresh_provider,
    refresh_rule_provider, HealthStep, ProviderHealth, RuleProviderInfo,
};
use meow::common::process::{
    addr_matches, owner_of, parse_hex_ipv4, parse_hex_ipv6, process_of, scan_proc_net,
    socket_link, table_for, SocketRow,
};
use meow::common::rule::{Network, RuleType};
use meow::config::listener::{build_named_listeners, ListenerType, NamedListener};
use meow::config::places::{save_steps, SaveStep};
use meow::config::raw::{parse_port_list, RawConfig, RawListener, RawProxyGroup, RawRuleProvider};
use meow::config::rule_provider::{
    after_download, fetch_http_blocking_with_cache, load_one, load_providers_prefetched,
    parse_text_payload, parse_yaml_payload, prefetch_payloads, read_payload_bytes,
    snapshot_ruleset_map, status_error, CacheStep, Fetched, ProviderType, Received, RuleEntries,
    RuleProvider, RuleSetBehavior, Source,
};
use meow::config::yaml::{Yaml, YamlNumber};
use meow::daemon::health::{extract_specs, members_to_check, tally};
use meow::daemon::service::{command_error, config_for_run, config_for_service, generate_launchd_plist};
use meow::daemon::startup::{listener_address, plan_listeners};
use meow::http::{
    append_chunk, fetch_via_proxy, host_header, parse_response, request_for, start_fetch,
    FetchStep, Outcome,
};
use meow::net::{IpAddr, SocketAddr};
use meow::paths::{file_name_of, is_absolute, join, parent_of};
use std::collections::BTreeMap;

fn strings(v: &[&str]) -> Vec<String> {
    v.iter().map(|s| s.to_string()).collect()
}

fn raw_provider(kind: &str, behavior: &str) -> RawRuleProvider {
    RawRuleProvider {
        provider_type: kind.to_string(),
        behavior: behavior.to_string(),
        format: None,
        url: None,
        path: None,
        interval: None,
        payload: None,
    }
}

fn inline(behavior: &str, payload: &[&str]) -> RawRuleProvider {
    RawRuleProvider {
        payload: Some(strings(payload)),
        ..raw_provider("inline", behavior)
    }
}

fn count(p: &RuleProvider) -> usize {
    match p.snapshot() {
        RuleEntries::Lines(l) => l.len(),
        RuleEntries::Compiled(_) => panic!("a compiled set"),
    }
}

fn text(bytes: &[u8]) -> Fetched {
    Ok(Received { bytes: bytes.to_vec(), compiled: false, as_set: Ok(()) })
}

fn set(bytes: Vec<u8>, as_set: Result<(), String>) -> Fetched {
    Ok(Received { bytes, compiled: true, as_set })
}

fn load(name: &str, cfg: RawRuleProvider, bytes: &[u8]) -> Vec<RuleProvider> {
    let all = vec![(name.to_string(), cfg)];
    load_providers_prefetched(&all, None, vec![text(bytes)], 7)
}

#[test]
fn yaml_file_provider_loads() {
    let cfg = RawRuleProvider {
        format: Some("yaml".to_string()),
        path: Some("list.yaml".to_string()),
        ..raw_provider("file", "domain")
    };
    let out = load("test", cfg, b"payload:\n  - '+.example.com'\n  - foo.com\n");
    assert_eq!(out.len(), 1);
    assert_eq!(out[0].behavior, RuleSetBehavior::Domain);
    assert_eq!(count(&out[0]), 2);
    assert_eq!(out[0].updated_at_secs(), 7);
}

#[test]
fn inline_provider_loads_payload() {
    let out = load("my-rules", inline("domain", &["example.com", "+.foo.com"]), b"");
    assert_eq!(out.len(), 1);
    assert_eq!(out[0].provider_type, ProviderType::Inline);
    assert_eq!(count(&out[0]), 2);
}

#[test]
fn inline_with_interval_hard_errors() {
    let cfg = RawRuleProvider {
        interval: Some(3600),
        ..inline("domain", &["example.com"])
    };
    let err = load_one("p", &cfg, None, Err("unused".to_string()), 0).unwrap_err();
    assert!(err.contains("inline providers cannot refresh"), "unexpected: {err}");
}

#[test]
fn mrs_format_auto_detected_by_magic_bytes() {
    let cfg = RawRuleProvider {
        path: Some("rules.mrs".to_string()),
        ..raw_provider("file", "domain")
    };
    let all = vec![("mrs-test".to_string(), cfg)];
    let out = load_providers_prefetched(&all, None, vec![set(vec![1, 2, 3], Ok(()))], 0);
    assert!(matches!(out[0].snapshot(), RuleEntries::Compiled(b) if *b == vec![1, 2, 3]));
}

#[test]
fn mrs_explicit_format_override() {
    let cfg = RawRuleProvider {
        format: Some("mrs".to_string()),
        path: Some("rules.bin".to_string()),
        ..raw_provider("file", "domain")
    };
    let all = vec![("x".to_string(), cfg)];
    let out = load_providers_prefetched(&all, None, vec![set(vec![9], Ok(()))], 0);
    assert!(matches!(out[0].snapshot(), RuleEntries::Compiled(_)));
    let broken = set(vec![9], Err("no header".to_string()));
    let e = load_one("x", &all[0].1, None, broken, 0).unwrap_err();
    assert_eq!(e, "mrs parse error: no header");
}

#[test]
fn bad_provider_is_skipped() {
    let out = load("nope", raw_provider("file", "domain"), b"");
    assert!(out.is_empty());
}

#[test]
fn file_provider_interval_warns_but_loads() {
    let cfg = RawRuleProvider {
        format: Some("yaml".to_string()),
        path: Some("list.yaml".to_string()),
        interval: Some(3600),
        ..raw_provider("file", "domain")
    };
    let out = load("warn-test", cfg, b"payload:\n  - 'example.com'\n");
    assert_eq!(out.len(), 1);
    assert!(!out[0].repeats());
}

#[test]
fn http_provider_loads_inside_existing_tokio_runtime() {
    let cfg = RawRuleProvider {
        format: Some("yaml".to_string()),
        url: Some("http://127.0.0.1:1/rules.yaml".to_string()),
        ..raw_provider("http", "domain")
    };
    let out = load("http-test", cfg, b"payload:\n  - 'example.com'\n");
    assert_eq!(out[0].provider_type, ProviderType::Http);
    assert_eq!(count(&out[0]), 1);
    assert_eq!(out[0].refresh_url(), Some("http://127.0.0.1:1/rules.yaml"));
}

#[test]
fn snapshot_ruleset_map_returns_all_providers() {
    let all = vec![
        ("p1".to_string(), inline("domain", &["example.com"])),
        ("p2".to_string(), inline("ipcidr", &["10.0.0.0/8"])),
    ];
    let none = || Err("no bytes".to_string());
    let out = load_providers_prefetched(&all, None, vec![none(), none()], 0);
    let map = snapshot_ruleset_map(&out);
    assert_eq!(map.len(), 2);
    assert!(map.iter().any(|(n, _)| *n == "p1"));
    assert!(map.iter().any(|(n, _)| *n == "p2"));
}

#[test]
fn each_fault_of_a_provider_is_told() {
    let none = || Err("read failed".to_string());
    let e = |cfg: &RawRuleProvider| load_one("p", cfg, None, none(), 0).unwrap_err();
    assert_eq!(e(&raw_provider("inline", "what")), "unknown rule-set behavior: what");
    assert_eq!(
        e(&raw_provider("inline", "domain")),
        "rule-provider 'p': inline type requires `payload:`"
    );
    assert_eq!(e(&raw_provider("http", "domain")), "http provider 'p' requires a 'url'");
    assert_eq!(e(&raw_provider("ftp", "domain")), "unknown rule-provider type: ftp");
    let file = RawRuleProvider {
        path: Some("x".to_string()),
        ..raw_provider("file", "domain")
    };
    assert_eq!(e(&file), "read failed");
    let odd = RawRuleProvider {
        format: Some("xml".to_string()),
        ..file
    };
    let e = load_one("p", &odd, None, text(b""), 0).unwrap_err();
    assert_eq!(e, "unknown rule-set format: xml");
}

#[test]
fn a_failed_refresh_keeps_the_rules() {
    let cfg = RawRuleProvider {
        url: Some("http://h/".to_string()),
        interval: Some(60),
        ..raw_provider("http", "domain")
    };
    let mut p = load("h", cfg, b"payload:\n  - a.com\n").remove(0);
    assert!(p.repeats());
    assert_eq!(p.refresh(Err("down".to_string()), 9), Err("down".to_string()));
    assert_eq!((count(&p), p.updated_at_secs()), (1, 7));
    assert_eq!(p.refresh(text(b"payload:\n  - a.com\n  - b.com\n"), 9), Ok(()));
    assert_eq!((count(&p), p.updated_at_secs()), (2, 9));
    let broken = set(vec![0x28, 0xb5], Err("truncated".to_string()));
    assert_eq!(p.refresh(broken, 12), Err("mrs parse error: truncated".to_string()));
    assert_eq!((count(&p), p.updated_at_secs()), (2, 9));
}

#[test]
fn payloads_are_parsed() {
    assert_eq!(
        parse_yaml_payload("payload:\n  - a.com\n  - 'b.com'\n").unwrap(),
        strings(&["a.com", "b.com"])
    );
    assert!(parse_yaml_payload("payload: [").is_err());
    assert_eq!(parse_text_payload("# c\n\n a.com \nb.com"), strings(&["a.com", "b.com"]));
}

#[test]
fn payloads_are_fetched_or_read() {
    let http = RawRuleProvider {
        url: Some("http://h/r".to_string()),
        ..raw_provider("http", "domain")
    };
    match read_payload_bytes("n", &http, Some("/cache")) {
        Ok(Source::Http { url, cache, .. }) => {
            assert_eq!(url, "http://h/r");
            assert_eq!(cache.as_deref(), Some("/cache/rule-providers/n.yaml"));
        }
        other => panic!("{other:?}"),
    }
    assert!(matches!(
        read_payload_bytes("n", &inline("domain", &[]), None),
        Ok(Source::Inline)
    ));
    let all = vec![("a".to_string(), http), ("b".to_string(), inline("domain", &[]))];
    let got = prefetch_payloads(&all, None, vec![Ok(Some(vec![1])), Ok(None)]);
    assert_eq!(got, vec![("a".to_string(), vec![1])]);
}

#[test]
fn only_sources_kept_elsewhere_are_listed() {
    let http = RawRuleProvider {
        url: Some("http://h/r".to_string()),
        ..raw_provider("http", "domain")
    };
    let lost = RawRuleProvider {
        url: Some("http://h/lost".to_string()),
        ..raw_provider("http", "domain")
    };
    let file = RawRuleProvider {
        path: Some("rules.txt".to_string()),
        ..raw_provider("file", "domain")
    };
    let all = vec![
        ("lost".to_string(), lost),
        ("written".to_string(), inline("domain", &["a.com"])),
        ("odd".to_string(), raw_provider("ftp", "domain")),
        ("loud".to_string(), raw_provider("HTTP", "domain")),
        ("nowhere".to_string(), raw_provider("http", "domain")),
        ("file".to_string(), file),
        ("http".to_string(), http),
    ];
    let read = vec![
        Err("refused".to_string()),
        Ok(Some(vec![1])),
        Ok(Some(vec![2])),
        Ok(Some(vec![3])),
        Ok(Some(vec![4])),
        Ok(Some(vec![5])),
        Ok(Some(vec![])),
    ];
    assert_eq!(
        prefetch_payloads(&all, Some("/cache"), read),
        vec![("file".to_string(), vec![5]), ("http".to_string(), vec![])]
    );
}

#[test]
fn a_cache_stands_in_for_a_failed_download() {
    let place = Some("/c/x".to_string());
    assert!(matches!(
        fetch_http_blocking_with_cache("http://h", &place, true, true),
        CacheStep::ReadCache(p) if p == "/c/x"
    ));
    assert!(matches!(
        fetch_http_blocking_with_cache("http://h", &place, true, false),
        CacheStep::Download(u) if u == "http://h"
    ));
    assert!(matches!(
        after_download(Err("down".to_string()), &place, true),
        CacheStep::ReadCache(_)
    ));
    assert!(matches!(
        after_download(Err("down".to_string()), &place, false),
        CacheStep::Failed(e) if e == "down"
    ));
    assert!(matches!(
        after_download(Ok(vec![1]), &place, false),
        CacheStep::Use { bytes, keep } if bytes == vec![1] && keep == place
    ));
    assert_eq!(status_error("404 Not Found", &b"gone".to_vec()), "HTTP 404 Not Found: gone");
}

#[test]
fn providers_of_proxies_are_told_of() {
    let health = Some(ProviderHealth {
        url: "http://t".to_string(),
        timeout: 0,
        expected_status: String::new(),
    });
    let i = provider_to_info("p", "HTTP", &health, 0);
    assert_eq!((i.provider_type.as_str(), i.test_url.as_str()), ("Proxy", "http://t"));
    assert_eq!(i.updated_at, None);
    let i = provider_to_info("p", "HTTP", &None, 1);
    assert_eq!(i.updated_at.as_deref(), Some("1970-01-01T00:00:01Z"));
    match provider_healthcheck(true, &health, None, None) {
        HealthStep::Check(p) => assert_eq!((p.timeout, p.expected), (1, None)),
        other => panic!("{other:?}"),
    }
    let (url, timeout) = (Some("http://u".to_string()), Some(" 250 ".to_string()));
    match provider_healthcheck(true, &health, url.clone(), timeout.clone()) {
        HealthStep::Check(p) => assert_eq!((p.url.as_str(), p.timeout), ("http://u", 250)),
        other => panic!("{other:?}"),
    }
    match provider_healthcheck(true, &health, None, timeout.clone()) {
        HealthStep::Check(p) => assert_eq!((p.url.as_str(), p.timeout), ("http://t", 250)),
        other => panic!("{other:?}"),
    }
    for (u, t) in [(Some(" "), None), (None, Some("0")), (Some("http://u"), Some("soon"))] {
        let step = provider_healthcheck(
            true,
            &health,
            u.map(str::to_string),
            t.map(str::to_string),
        );
        assert!(matches!(step, HealthStep::Reply(r) if r.status == 400));
    }
    let step = provider_healthcheck(true, &None, url.clone(), timeout.clone());
    assert!(matches!(step, HealthStep::Reply(r) if r.status == 204));
    let step = provider_healthcheck(false, &None, url, timeout);
    assert!(matches!(step, HealthStep::Reply(r) if r.status == 404));
    assert_eq!(refresh_provider(true, Err("down".to_string())).status, 503);
    assert_eq!(refresh_provider(true, Ok(())).status, 204);
    assert_eq!(refresh_provider(false, Ok(())).status, 404);
    assert_eq!(refresh_rule_provider(true, false).status, 503);
}

#[test]
fn providers_of_rules_are_told_of() {
    let p = load("r", inline("ipcidr", &["10.0.0.0/8"]), b"").remove(0);
    let i = RuleProviderInfo::from_provider(&p, 1, None);
    assert_eq!((i.format.as_str(), i.vehicle_type.as_str()), ("yaml", "Inline"));
    assert_eq!(i.updated_at, "1970-01-01T00:00:07Z");
    let list = vec![(
        "r".to_string(),
        RawRuleProvider {
            format: Some("text".to_string()),
            ..raw_provider("file", "domain")
        },
    )];
    assert_eq!(configured_format(&list, "r").as_deref(), Some("text"));
    assert_eq!(configured_format(&list, "q"), None);
}

#[test]
fn redirects_are_followed_five_times() {
    let mut f = start_fetch("http://a.example/x").unwrap();
    assert!(start_fetch("not a url").is_err());
    for i in 0..5 {
        match fetch_via_proxy(f, Ok(Outcome::Redirect(format!("/r{i}")))) {
            FetchStep::Ask(next) => f = next,
            other => panic!("{other:?}"),
        }
    }
    assert_eq!(f.current.text, "http://a.example/r4");
    match fetch_via_proxy(f, Ok(Outcome::Redirect("/again".to_string()))) {
        FetchStep::Failed(e) => assert!(e.contains("redirect"), "{e}"),
        other => panic!("{other:?}"),
    }
}

#[test]
fn requests_and_responses_over_a_proxy() {
    let f = start_fetch("http://h.example:8080/p?q=1").unwrap();
    let r = request_for(&f.current, "1.2.3").unwrap();
    assert_eq!((r.host.as_str(), r.port, r.https), ("h.example", 8080, false));
    assert!(r.text.starts_with("GET /p?q=1 HTTP/1.1\r\nHost: h.example:8080\r\n"), "{}", r.text);
    assert_eq!(host_header("h", 443, true), "h");
    assert_eq!(host_header("h", 443, false), "h:443");
    let ok = b"HTTP/1.1 200 OK\r\nContent-Length: 2\r\n\r\nhi".to_vec();
    assert!(matches!(parse_response(&ok), Ok(Outcome::Body(b)) if b == b"hi"));
    let moved = b"HTTP/1.1 302 Found\r\nLocation: /there\r\n\r\n".to_vec();
    assert!(matches!(parse_response(&moved), Ok(Outcome::Redirect(to)) if to == "/there"));
    assert!(parse_response(&b"HTTP/1.1 404 Not Found\r\n\r\n".to_vec()).is_err());
    assert!(parse_response(&b"HTTP/1.1 200".to_vec()).is_err());
    let mut buf = vec![1];
    append_chunk(&mut buf, &[2, 3]).unwrap();
    assert_eq!(buf, vec![1, 2, 3]);
}

#[test]
fn save_creates_tmp_and_bak_in_same_dir_as_config() {
    let first = save_steps("/d/config.yaml", false);
    assert_eq!(first.len(), 2);
    assert!(!first.iter().any(|s| matches!(s, SaveStep::Keep { .. })));
    let second = save_steps("/d/config.yaml", true);
    assert!(second.iter().any(
        |s| matches!(s, SaveStep::Keep { from, to } if from == "/d/config.yaml" && to == "/d/config.yaml.bak")
    ));
    assert!(matches!(
        second.last(),
        Some(SaveStep::Replace { from, to }) if from == "/d/config.yaml.tmp" && to == "/d/config.yaml"
    ));
}

#[test]
fn saving_leaves_the_old_or_the_new_file() {
    let path = "/d/config.yaml";
    let steps = save_steps(path, true);
    for fails_at in 0..=steps.len() {
        let mut disk = BTreeMap::from([(path.to_string(), "old")]);
        let mut done = true;
        for (k, step) in steps.iter().enumerate() {
            let fails = k == fails_at;
            match step {
                SaveStep::Write { to } => {
                    disk.insert(to.clone(), if fails { "n" } else { "new" });
                }
                SaveStep::Keep { from, to } => {
                    let kept = if fails { "o" } else { disk[from] };
                    disk.insert(to.clone(), kept);
                    continue;
                }
                SaveStep::Replace { from, to } => {
                    if !fails {
                        let new = disk.remove(from).unwrap();
                        disk.insert(to.clone(), new);
                    }
                }
            }
            if fails {
                done = false;
                break;
            }
        }
        assert_eq!(disk[path], if done { "new" } else { "old" });
        if fails_at == steps.len() {
            assert_eq!(disk["/d/config.yaml.bak"], "old");
            assert!(!disk.contains_key("/d/config.yaml.tmp"));
        }
    }
}

#[test]
fn paths_are_cut_and_joined() {
    assert!(is_absolute("/a"));
    assert_eq!(join("/a", "b"), "/a/b");
    assert_eq!(join("/a", "/b"), "/b");
    assert_eq!(parent_of("/a/b.yaml").as_deref(), Some("/a"));
    assert_eq!(parent_of("b.yaml").as_deref(), Some(""));
    assert_eq!(file_name_of("/a/b.yaml").as_deref(), Some("b.yaml"));
}

#[test]
fn services_run_on_absolute_paths() {
    assert_eq!(config_for_service(None, "config.yaml", "/w"), "/w/config.yaml");
    assert_eq!(config_for_service(Some("/etc/c.yaml"), "config.yaml", "/w"), "/etc/c.yaml");
    assert_eq!(config_for_run(Some("/d"), "config.yaml"), "/d/config.yaml");
    let plist = generate_launchd_plist("/bin/meow", "/c.yaml", "/support", "/logs");
    assert!(plist.contains("<string>/bin/meow</string>"));
    let e = command_error("systemctl", &strings(&["enable", "meow"]), "exit status: 1");
    assert!(e.contains("systemctl"), "{e}");
}

fn v4(a: u32, port: u16) -> SocketAddr {
    SocketAddr {
        ip: IpAddr::V4(a),
        port,
        scope: 0,
    }
}

#[test]
fn unknown_endpoint_returns_none() {
    let table = "  sl  local_address rem_address   st tx_queue rx_queue tr tm->when retrnsmt   uid  timeout inode\n   0: 0100007F:1F90 00000000:0000 0A 00000000:00000000 00:00000000 00000000  1000        0 4242 1\n";
    let (name, v6) = table_for(Network::Tcp, v4(0x7f000001, 8080));
    assert_eq!((name, v6), ("/proc/net/tcp", false));
    assert_eq!(scan_proc_net(table, v4(0x7f000001, 8080), false), Some((4242, 1000)));
    assert_eq!(scan_proc_net(table, v4(0x7f000001, 1), false), None);
    assert_eq!(socket_link(4242), "socket:[4242]");
}

#[test]
fn udp_wildcard_binds_match() {
    let target = IpAddr::V4(0x7f000001);
    assert!(addr_matches(IpAddr::V4(0), target));
    assert!(addr_matches(IpAddr::V6(0), target));
    assert!(addr_matches(IpAddr::V6(0xffff_7f00_0001), target));
    assert!(!addr_matches(IpAddr::V4(1), target));
    let rows = vec![
        SocketRow {
            address: IpAddr::V4(5),
            port: 80,
            pid: 1,
        },
        SocketRow {
            address: IpAddr::V4(0),
            port: 80,
            pid: 2,
        },
    ];
    assert_eq!(owner_of(&rows, v4(0x7f000001, 80)), Some(2));
}

#[test]
fn kernel_addresses_are_read() {
    assert_eq!(parse_hex_ipv4("0100007F"), Some(IpAddr::V4(0x7f000001)));
    assert_eq!(parse_hex_ipv4("01"), None);
    assert_eq!(
        parse_hex_ipv6("00000000000000000000000001000000"),
        Some(IpAddr::V6(1))
    );
    let p = process_of(Some("/usr/bin/curl"), "x", 7);
    assert_eq!((p.name.as_str(), p.path.as_str(), p.uid), ("curl", "/usr/bin/curl", Some(7)));
    assert_eq!(process_of(None, "kworker", 0).name, "kworker");
}

#[test]
fn rule_types_have_names() {
    assert_eq!(RuleType::Domain.as_str(), "DOMAIN");
    assert_eq!(RuleType::GeoIp.as_str(), "GEOIP");
    assert_eq!(RuleType::Match.as_str(), "MATCH");
}

#[test]
fn ports_and_ranges_are_read() {
    let y = Yaml::Sequence(vec![
        Yaml::Number(YamlNumber::Unsigned(80)),
        Yaml::Text("8080-8082".to_string()),
    ]);
    assert_eq!(parse_port_list(&y).ok().unwrap(), Some(vec![80, 8080, 8081, 8082]));
    let bad = Yaml::Sequence(vec![Yaml::Text("9-8".to_string())]);
    assert_eq!(parse_port_list(&bad).err().unwrap().message(), "invalid port range: 9-8");
}

fn listener(name: &str, kind: &str, port: u16) -> RawListener {
    RawListener {
        name: name.to_string(),
        listener_type: kind.to_string(),
        port,
        listen: None,
        tproxy_sni: None,
        max_connections: None,
    }
}

#[test]
fn listeners_need_names_and_ports_of_their_own() {
    let build = |l: Vec<RawListener>| {
        let raw = RawConfig {
            mixed_port: Some(7890),
            listeners: Some(l),
            ..Default::default()
        };
        build_named_listeners(&raw, "127.0.0.1", false)
    };
    let ok = build(vec![listener("a", "http", 8080)]).ok().unwrap();
    assert_eq!(ok.len(), 2);
    assert_eq!(ok[0].listener_type, ListenerType::Mixed);
    let shown = get_listeners(&ok);
    assert_eq!((shown[1].listener_type.as_str(), shown[1].port), ("http", 8080));
    assert!(build(vec![listener("a", "http", 7890)]).is_err());
    assert!(build(vec![listener("a", "http", 1), listener("a", "http", 2)]).is_err());
    assert!(build(vec![listener("a", "gopher", 1)]).is_err());
}

#[test]
fn listeners_are_started_where_their_address_can_be_read() {
    let l = |listen: &str| NamedListener {
        name: "x".to_string(),
        listener_type: ListenerType::Socks5,
        port: 1080,
        listen: listen.to_string(),
        tproxy_sni: false,
        max_connections: 0,
    };
    assert_eq!(listener_address(&l("127.0.0.1")), Some(v4(0x7f000001, 1080)));
    assert_eq!(listener_address(&l("nowhere")), None);
    assert_eq!(plan_listeners(&vec![l("0.0.0.0"), l("nowhere"), l("0.0.0.0")]).len(), 1);
}

#[test]
fn groups_that_measure_are_checked() {
    let g = |kind: &str, interval: Option<u64>| RawProxyGroup {
        name: kind.to_string(),
        group_type: kind.to_string(),
        url: Some("http://t".to_string()),
        interval,
        ..Default::default()
    };
    let specs = extract_specs(&vec![g("select", Some(1)), g("url-test", Some(300)), g("fallback", None)]);
    assert!(specs.iter().any(|s| s.group_name == "url-test" && s.interval_secs == 300));
    assert!(!specs.iter().any(|s| s.group_name == "select"));
    assert_eq!(members_to_check(&strings(&["a", "b"]), &vec![false, true]), strings(&["b"]));
    assert_eq!(tally(&vec![0, 5, 0, 9]), (2, 4));
}
