use meow::config::dns::normalize_hosts_wildcard;
use meow::config::geo::{
    build_parser_context_at, collect_asn_numbers, collect_geo_scan_lines,
    collect_geoip_countries, collect_geosite_categories, databases_at_hand, line_references_asn,
    line_references_geoip, load_error, AtHand, Loaded, Payload,
};
use meow::config::places::{
    default_config_dir_without_home_override, resource_cache_dir_for_config_path_with_home,
    Surroundings,
};
use meow::config::raw::{RawConfig, RawRuleProvider};
use std::collections::HashSet;

fn strings(v: &[&str]) -> Vec<String> {
    v.iter().map(|s| s.to_string()).collect()
}

fn raw_with_rules(rules: &[&str]) -> RawConfig {
    RawConfig {
        rules: Some(strings(rules)),
        ..Default::default()
    }
}

fn set(v: Vec<String>) -> HashSet<String> {
    let n = v.len();
    let s: HashSet<String> = v.into_iter().collect();
    assert_eq!(s.len(), n, "each stands once");
    s
}

#[test]
fn normalize_wildcard_converts_star() {
    assert_eq!(normalize_hosts_wildcard("*.example.com"), "+.example.com");
    assert_eq!(normalize_hosts_wildcard("+.example.com"), "+.example.com");
    assert_eq!(normalize_hosts_wildcard("example.com"), "example.com");
}

#[test]
fn scanner_matches_geoip_rule() {
    assert!(line_references_geoip("GEOIP,CN,DIRECT"));
    assert!(line_references_geoip("  geoip,us,proxy,no-resolve"));
    assert!(line_references_geoip("AND,((GEOIP,CN),(DST-PORT,443)),PROXY"));
    assert!(!line_references_geoip("DOMAIN,example.com,DIRECT"));
    assert!(!line_references_geoip("# GEOIP,CN,DIRECT"));
    assert!(!line_references_geoip(""));
    assert!(!line_references_geoip("GEOSITE,twitter,Proxy"));
    assert!(!line_references_geoip("RULE-SET,geoip-cn,DIRECT"));
}

#[test]
fn collect_geoip_countries_picks_up_top_level_and_logic_rules() {
    let lines = strings(&[
        "GEOIP,CN,DIRECT",
        "  src-geoip,us,Proxy",
        "AND,((GEOIP,JP,Proxy),(DST-PORT,443,Proxy)),Proxy",
        "DOMAIN,example.com,DIRECT",
        "# GEOIP,XX,DIRECT",
    ]);
    let got = set(collect_geoip_countries(&lines));
    assert_eq!(got, set(strings(&["CN", "US", "JP"])));
}

#[test]
fn collect_geoip_countries_deduplicates_repeats() {
    let mut lines = Vec::new();
    for i in 0..50 {
        lines.push(format!("GEOIP,CN,Proxy{i}"));
        lines.push(format!("geoip,us,Proxy{i}"));
        lines.push(format!("GEOIP,JP,Proxy{i}"));
        lines.push(format!("SRC-GEOIP,TW,Proxy{i}"));
        lines.push(format!(
            "AND,((GEOIP,CN,Proxy),(DST-PORT,443,Proxy)),Proxy{i}"
        ));
    }
    let got = set(collect_geoip_countries(&lines));
    assert_eq!(got, set(strings(&["CN", "US", "JP", "TW"])));
}

#[test]
fn scan_lines_include_sub_rules_blocks() {
    let raw = RawConfig {
        rules: Some(strings(&["SUB-RULE,(DOMAIN-SUFFIX,example.com),my-sub"])),
        sub_rules: Some(vec![(
            "my-sub".to_string(),
            strings(&["GEOIP,JP,PROXY", "IP-ASN,13335,DIRECT"]),
        )]),
        ..Default::default()
    };
    let lines = collect_geo_scan_lines(&raw, &Vec::new());
    assert!(collect_geoip_countries(&lines).contains(&"JP".to_string()));
    assert!(collect_asn_numbers(&lines).contains(&13335));
}

#[test]
fn scan_lines_include_inline_provider_payloads() {
    let raw = RawConfig {
        rules: Some(strings(&["RULE-SET,my-provider,PROXY"])),
        rule_providers: Some(vec![(
            "my-provider".to_string(),
            RawRuleProvider {
                provider_type: "inline".to_string(),
                behavior: "classical".to_string(),
                format: None,
                url: None,
                path: None,
                interval: None,
                payload: Some(strings(&["GEOIP,KR", "GEOSITE,youtube"])),
            },
        )]),
        ..Default::default()
    };
    let lines = collect_geo_scan_lines(&raw, &Vec::new());
    assert!(collect_geoip_countries(&lines).contains(&"KR".to_string()));
    assert!(collect_geosite_categories(&lines).contains(&"youtube".to_string()));
}

#[test]
fn scan_lines_include_prefetched_provider_payloads() {
    let raw = RawConfig::default();
    let payloads = vec![
        Payload {
            name: "yaml-provider".to_string(),
            bytes: b"payload:\n  - 'GEOIP,BR,no-resolve'\n  - DOMAIN,example.com\n".to_vec(),
            compiled: false,
        },
        Payload {
            name: "text-provider".to_string(),
            bytes: b"# comment GEOIP,XX\nSRC-IP-ASN,15169\n".to_vec(),
            compiled: false,
        },
        Payload {
            name: "mrs-provider".to_string(),
            bytes: vec![0x28, 0xb5, 0x2f, 0xfd],
            compiled: true,
        },
    ];
    let lines = collect_geo_scan_lines(&raw, &payloads);
    let countries = collect_geoip_countries(&lines);
    assert!(countries.contains(&"BR".to_string()));
    assert!(!countries.contains(&"XX".to_string()));
    assert!(collect_asn_numbers(&lines).contains(&15169));
}

const NO_ASN: &str = "/definitely/not/a/real/path/GeoLite2-ASN.mmdb";

#[test]
fn sub_rules_only_geoip_triggers_mmdb_load() {
    let raw = RawConfig {
        rules: Some(strings(&["SUB-RULE,(DOMAIN-SUFFIX,example.com),my-sub"])),
        sub_rules: Some(vec![("my-sub".to_string(), strings(&["GEOIP,JP,PROXY"]))]),
        ..Default::default()
    };
    let path = "/nonexistent-test-path-277/Country.mmdb";
    let needs = build_parser_context_at(&raw, path, NO_ASN, &Vec::new());
    let (need, countries) = needs.geoip.expect("sub-rules GEOIP must trigger the load");
    assert_eq!(countries, strings(&["JP"]));
    let msg = load_error("GeoIP", &need.path, &need.trigger, "no such file");
    assert!(msg.contains("/nonexistent-test-path-277/Country.mmdb"));
    assert!(msg.contains("GEOIP,JP,PROXY"));
}

#[test]
fn collect_geoip_countries_ignores_geosite() {
    let lines = strings(&["GEOSITE,cn,DIRECT", "DOMAIN,example.com,DIRECT"]);
    assert!(collect_geoip_countries(&lines).is_empty());
}

#[test]
fn no_geoip_rules_skips_mmdb_load() {
    let raw = raw_with_rules(&["DOMAIN,example.com,DIRECT", "IP-CIDR,10.0.0.0/8,DIRECT"]);
    let path = "/definitely/not/a/real/path/Country.mmdb";
    let needs = build_parser_context_at(&raw, path, NO_ASN, &Vec::new());
    assert!(needs.geoip.is_none());
    assert!(needs.asn.is_none());
    assert!(needs.geosite.is_none());
}

#[test]
fn missing_mmdb_with_geoip_rule_errors_with_path_and_rule() {
    let raw = raw_with_rules(&["DOMAIN,example.com,DIRECT", "GEOIP,CN,DIRECT"]);
    let path = "/nonexistent-test-path-42/Country.mmdb";
    let needs = build_parser_context_at(&raw, path, NO_ASN, &Vec::new());
    let (need, _) = needs.geoip.expect("the database is needed");
    let msg = load_error("GeoIP", &need.path, &need.trigger, "no such file");
    assert_eq!(
        msg,
        "Failed to load GeoIP database at /nonexistent-test-path-42/Country.mmdb\n  required by rule: GEOIP,CN,DIRECT\n  underlying error: no such file"
    );
}

#[test]
fn scanner_matches_src_geoip_rule() {
    assert!(line_references_geoip("SRC-GEOIP,AU,DIRECT"));
    assert!(line_references_geoip("  src-geoip,us,proxy"));
}

#[test]
fn scanner_matches_ip_asn_rule() {
    assert!(line_references_asn("IP-ASN,13335,PROXY"));
    assert!(line_references_asn("  src-ip-asn,15169,DIRECT"));
    assert!(!line_references_asn("DOMAIN,example.com,DIRECT"));
    assert!(!line_references_asn("# IP-ASN,13335,PROXY"));
    assert!(!line_references_asn("GEOIP,CN,DIRECT"));
}

#[test]
fn no_asn_rules_skips_asn_mmdb_load() {
    let raw = raw_with_rules(&["DOMAIN,example.com,DIRECT"]);
    let path = "/definitely/not/a/real/path/Country.mmdb";
    let needs = build_parser_context_at(&raw, path, NO_ASN, &Vec::new());
    assert!(needs.asn.is_none());
}

#[test]
fn missing_asn_mmdb_with_ip_asn_rule_errors_with_path_and_rule() {
    let raw = raw_with_rules(&["IP-ASN,13335,PROXY"]);
    let asn = "/nonexistent-test-path-asn/GeoLite2-ASN.mmdb";
    let needs = build_parser_context_at(&raw, "/x/Country.mmdb", asn, &Vec::new());
    assert!(needs.geoip.is_none());
    let (need, numbers) = needs.asn.expect("the database is needed");
    assert_eq!(numbers, vec![13335]);
    let msg = load_error("ASN", &need.path, &need.trigger, "no such file");
    assert!(msg.contains(asn));
    assert!(msg.contains("IP-ASN,13335,PROXY"));
}

#[test]
fn corrupt_mmdb_errors_at_parse_stage() {
    let raw = raw_with_rules(&["GEOIP,CN,DIRECT"]);
    let needs = build_parser_context_at(&raw, "/tmp/garbage.mmdb", NO_ASN, &Vec::new());
    let garbage = Loaded::Unreadable("not a real mmdb file".to_string());
    let msg = databases_at_hand(&needs, &garbage, &Loaded::Ready, true)
        .expect_err("garbage bytes must fail to parse as mmdb");
    assert!(msg.contains("GeoIP"), "error should mention GeoIP: {msg}");
}

#[test]
fn a_database_that_is_needed_must_be_there() {
    let raw = raw_with_rules(&["GEOIP,CN,DIRECT", " IP-ASN,13335,PROXY", "GEOSITE,cn,DIRECT"]);
    let needs = build_parser_context_at(&raw, "/c", "/a", &Vec::new());
    let missing = || Loaded::Unreadable("gone".to_string());
    assert_eq!(
        databases_at_hand(&needs, &Loaded::Ready, &Loaded::Ready, false),
        Ok(AtHand { geoip: true, asn: true, geosite: false })
    );
    assert_eq!(
        databases_at_hand(&needs, &missing(), &missing(), true),
        Err(load_error("GeoIP", "/c", "GEOIP,CN,DIRECT", "gone"))
    );
    let e = databases_at_hand(&needs, &Loaded::Ready, &missing(), true).unwrap_err();
    assert_eq!(e, load_error("GeoLite2-ASN", "/a", "IP-ASN,13335,PROXY", "gone"));
    let odd = Loaded::Unindexed("odd".to_string());
    assert_eq!(
        databases_at_hand(&needs, &odd, &Loaded::Ready, true),
        Err("failed to build GeoIP country index: odd".to_string())
    );
    let none = build_parser_context_at(&raw_with_rules(&[]), "/c", "/a", &Vec::new());
    assert_eq!(
        databases_at_hand(&none, &missing(), &missing(), true),
        Ok(AtHand { geoip: false, asn: false, geosite: false })
    );
}

#[test]
fn lists_of_lines_name_countries_together() {
    let a = strings(&["  GEOIP,cn,DIRECT  ", "GEOIP,JP,PROXY"]);
    let b = strings(&["GEOIP,CN,PROXY", "# GEOIP,US,PROXY"]);
    let both: Vec<String> = a.iter().chain(&b).cloned().collect();
    assert_eq!(collect_geoip_countries(&a), strings(&["CN", "JP"]));
    assert_eq!(collect_geoip_countries(&b), strings(&["CN"]));
    assert_eq!(collect_geoip_countries(&both), strings(&["CN", "JP"]));
}

fn nowhere() -> Surroundings {
    Surroundings {
        home_dir: None,
        xdg_config_home: None,
        home: None,
    }
}

#[test]
fn provider_cache_dir_prefers_home_override() {
    let e = Surroundings {
        home_dir: Some("/tmp/meow-home".to_string()),
        ..nowhere()
    };
    let got = resource_cache_dir_for_config_path_with_home("/elsewhere/config.yaml", &e);
    assert_eq!(got, "/tmp/meow-home");
}

#[test]
fn provider_cache_dir_uses_config_parent_without_home_override() {
    let got = resource_cache_dir_for_config_path_with_home("/tmp/cfg/config.yaml", &nowhere());
    assert_eq!(got, "/tmp/cfg");
}

#[test]
fn provider_cache_dir_does_not_fall_back_to_cwd_for_bare_config_name() {
    let e = Surroundings {
        home: Some("/home/u".to_string()),
        ..nowhere()
    };
    let got = resource_cache_dir_for_config_path_with_home("config.yaml", &e);
    assert_eq!(got, default_config_dir_without_home_override(&e));
    assert_ne!(got, ".");
}
