use base64::Engine;
use meow::config::outbound::parse_proxy;
use meow::config::proxy_registry::{rebuild_from_raw, Outside};
use meow::config::raw::RawConfig;
use meow::config::vless::{parse_uuid, parse_vless, with_layers, Transport, VlessWarning};
use meow::config::yaml::{Options, Yaml, YamlNumber};

fn value(v: &serde_yaml::Value) -> Yaml {
    match v {
        serde_yaml::Value::Null => Yaml::Null,
        serde_yaml::Value::Bool(b) => Yaml::Bool(*b),
        serde_yaml::Value::Number(n) => Yaml::Number(if let Some(u) = n.as_u64() {
            YamlNumber::Unsigned(u)
        } else if let Some(i) = n.as_i64() {
            YamlNumber::Negative(i)
        } else {
            YamlNumber::Other(n.to_string())
        }),
        serde_yaml::Value::String(s) => Yaml::Text(s.clone()),
        serde_yaml::Value::Sequence(s) => Yaml::Sequence(s.iter().map(value).collect()),
        serde_yaml::Value::Mapping(m) => {
            Yaml::Mapping(m.iter().map(|(k, v)| (value(k), value(v))).collect())
        }
        serde_yaml::Value::Tagged(t) => value(&t.value),
    }
}

fn options_of(v: &serde_yaml::Value) -> Options {
    v.as_mapping()
        .unwrap()
        .iter()
        .map(|(k, v)| (k.as_str().unwrap().to_string(), value(v)))
        .collect()
}

fn proxies(yaml: &str) -> Vec<Options> {
    let v: serde_yaml::Value = serde_yaml::from_str(yaml).unwrap();
    let list = v.get("proxies").unwrap().as_sequence().unwrap();
    list.iter().map(options_of).collect()
}

fn registered(yaml: &str, name: &str) -> bool {
    let raw = RawConfig {
        proxies: Some(proxies(yaml)),
        ..Default::default()
    };
    let built = rebuild_from_raw(&raw, &Outside::default())
        .ok()
        .expect("config load must succeed (warn-and-skip)");
    built.registry.get(name).is_some()
}

fn warnings(yaml: &str) -> Vec<VlessWarning> {
    let p = proxies(yaml);
    parse_vless("v", &p[0]).expect("must not be a hard error").warnings
}

const MINIMAL_VLESS: &str = r#"
proxies:
  - name: test-vless
    type: vless
    server: example.com
    port: 443
    uuid: b831381d-6324-4d53-ad4f-8cda48b30811
"#;

fn base(more: &str) -> String {
    format!(
        "\nproxies:\n  - name: v\n    type: vless\n    server: example.com\n    port: 443\n    uuid: b831381d-6324-4d53-ad4f-8cda48b30811\n{more}"
    )
}

#[test]
fn parse_vless_minimal_ok() {
    assert!(registered(MINIMAL_VLESS, "test-vless"));
    let p = proxies(MINIMAL_VLESS);
    let v = parse_vless("test-vless", &p[0]).unwrap();
    assert_eq!(v.server, "example.com");
    assert_eq!(v.port, 443);
    assert_eq!(v.uuid[0], 0xb8);
    assert_eq!(v.uuid.len(), 16);
    assert!(v.tls.is_none());
    assert!(matches!(v.transport, Transport::Tcp));
}

#[test]
fn parse_vless_all_fields_roundtrip() {
    let yaml = r#"
proxies:
  - name: full-vless
    type: vless
    server: example.com
    port: 443
    uuid: b831381d-6324-4d53-ad4f-8cda48b30811
    tls: true
    flow: "xtls-rprx-vision"
    udp: true
    servername: cdn.example.com
    skip-cert-verify: false
    alpn:
      - h2
      - http/1.1
    network: ws
    ws-opts:
      path: /vless
      headers:
        Host: example.com
      max-early-data: 2048
      early-data-header-name: Sec-WebSocket-Protocol
"#;
    assert!(registered(yaml, "full-vless"));
    let p = proxies(yaml);
    let v = parse_vless("full-vless", &p[0]).unwrap();
    let tls = v.tls.unwrap();
    assert_eq!(tls.sni, "cdn.example.com");
    assert_eq!(tls.alpn, vec!["h2".to_string(), "http/1.1".to_string()]);
    match v.transport {
        Transport::WebSocket {
            path,
            host,
            max_early_data,
            early_data_header_name,
        } => {
            assert_eq!(path, "/vless");
            assert_eq!(host, "example.com");
            assert_eq!(max_early_data, 2048);
            assert_eq!(
                early_data_header_name.as_deref(),
                Some("Sec-WebSocket-Protocol")
            );
        }
        other => panic!("expected a web socket, got {other:?}"),
    }
}

#[test]
fn parse_vless_flow_empty_string_ok() {
    assert!(registered(&base("    flow: \"\"\n"), "v"));
}

#[test]
fn parse_vless_flow_absent_ok() {
    assert!(registered(MINIMAL_VLESS, "test-vless"));
}

#[test]
fn parse_vless_flow_vision_ok() {
    let yaml = base("    tls: true\n    flow: \"xtls-rprx-vision\"\n");
    assert!(registered(&yaml, "v"));
    assert!(parse_vless("v", &proxies(&yaml)[0]).unwrap().vision);
}

#[test]
fn parse_vless_flow_unknown_hard_errors() {
    assert!(!registered(&base("    flow: \"xtls-rprx-unknown\"\n"), "v"));
}

#[test]
fn parse_vless_flow_deprecated_direct_hard_errors() {
    assert!(!registered(&base("    flow: \"xtls-rprx-direct\"\n"), "v"));
}

#[test]
fn parse_vless_flow_deprecated_splice_hard_errors() {
    assert!(!registered(&base("    flow: \"xtls-rprx-splice\"\n"), "v"));
}

#[test]
fn parse_vless_reality_opts_requires_fingerprint() {
    let more = "    tls: true\n    reality-opts:\n      public-key: AQEBAQEBAQEBAQEBAQEBAQEBAQEBAQEBAQEBAQEBAQE\n";
    assert!(!registered(&base(more), "v"));
}

#[test]
fn parse_vless_reality_opts_requires_tls_true() {
    let more = "    client-fingerprint: chrome\n    reality-opts:\n      public-key: AQEBAQEBAQEBAQEBAQEBAQEBAQEBAQEBAQEBAQEBAQE\n";
    assert!(!registered(&base(more), "v"));
}

#[test]
fn parse_vless_reality_opts_invalid_public_key_skipped() {
    let more = "    tls: true\n    client-fingerprint: chrome\n    reality-opts:\n      public-key: abc123\n";
    assert!(!registered(&base(more), "v"));
}

#[test]
fn parse_vless_reality_opts_invalid_short_id_skipped() {
    let more = "    tls: true\n    client-fingerprint: chrome\n    reality-opts:\n      public-key: AQEBAQEBAQEBAQEBAQEBAQEBAQEBAQEBAQEBAQEBAQE\n      short-id: 001122334455667788\n";
    assert!(!registered(&base(more), "v"));
}

#[test]
fn parse_vless_tls_false_plain_warns_once() {
    let yaml = base("    tls: false\n");
    assert!(registered(&yaml, "v"));
    assert_eq!(warnings(&yaml), vec![VlessWarning::Plaintext]);
}

#[test]
fn parse_vless_tls_false_no_duplicate_warn() {
    let yaml = base("    tls: false\n");
    assert_eq!(warnings(&yaml), vec![VlessWarning::Plaintext]);
    assert_eq!(warnings(&yaml), vec![VlessWarning::Plaintext]);
}

#[test]
fn parse_vless_vision_without_tls_hard_errors() {
    assert!(!registered(
        &base("    tls: false\n    flow: \"xtls-rprx-vision\"\n"),
        "v"
    ));
}

#[test]
fn parse_vless_vision_with_grpc_transport_ok() {
    let yaml = base("    tls: false\n    network: grpc\n    flow: \"xtls-rprx-vision\"\n");
    assert!(registered(&yaml, "v"));
    match parse_vless("v", &proxies(&yaml)[0]).unwrap().transport {
        Transport::Grpc {
            service_name,
            authority,
        } => {
            assert_eq!(service_name, "GunService");
            assert_eq!(authority, "example.com");
        }
        other => panic!("expected gRPC, got {other:?}"),
    }
}

#[test]
fn parse_vless_encryption_non_none_hard_errors() {
    assert!(!registered(&base("    encryption: \"aes-128-gcm\"\n"), "v"));
}

#[test]
fn parse_vless_encryption_empty_string_accepted() {
    assert!(registered(&base("    encryption: \"\"\n"), "v"));
}

#[test]
fn parse_vless_encryption_issue_301() {
    let yaml = r#"
proxies:
  - name: vpn26
    type: vless
    server: vpn26.abc.com
    port: 443
    uuid: 55f4ad8f-7ab1-4786-9130-d107e0b9dcdb
    udp: true
    tls: true
    servername: aws.amazon.com
    network: tcp
    encryption: mlkem768x25519plus.native.0rtt.DA7B2WRj7X2zGFwMelbIbcaoUrpLjzoPpmydYW8NvQW
    client-fingerprint: chrome
"#;
    assert!(!registered(yaml, "vpn26"));
}

#[test]
fn parse_vless_mux_enabled_warns_and_ignores() {
    let yaml = base("    mux:\n      enabled: true\n");
    assert!(registered(&yaml, "v"));
    assert!(warnings(&yaml).contains(&VlessWarning::MuxIgnored));
}

#[test]
fn parse_vless_vision_udp_true_warns_once() {
    let yaml = base("    tls: true\n    flow: \"xtls-rprx-vision\"\n    udp: true\n");
    assert!(registered(&yaml, "v"));
    assert_eq!(warnings(&yaml), vec![VlessWarning::VisionIsTcpOnly]);
}

#[test]
fn parse_vless_uuid_hex_and_dashed_both_accepted() {
    assert!(registered(MINIMAL_VLESS, "test-vless"));
    let hex = r#"
proxies:
  - name: hex
    type: vless
    server: example.com
    port: 443
    uuid: b831381d63244d53ad4f8cda48b30811
"#;
    assert!(registered(hex, "hex"));
    assert_eq!(
        parse_uuid("b831381d63244d53ad4f8cda48b30811"),
        parse_uuid("b831381d-6324-4d53-ad4f-8cda48b30811")
    );
}

#[test]
fn uuid_is_hex_digits_only() {
    assert_eq!(
        parse_uuid(&"+1".repeat(16)),
        Err(format!("invalid uuid '{}': invalid hex char at byte 0", "+1".repeat(16)))
    );
    assert_eq!(parse_uuid(&"0f".repeat(16)), Ok(vec![15; 16]));
    assert_eq!(parse_uuid(&"-0-F-".repeat(16)), Ok(vec![15; 16]));
    assert_eq!(
        parse_uuid("0f"),
        Err(
            "invalid uuid '0f': expected 32 hex chars (with or without dashes), got 2".to_string()
        )
    );
}

#[test]
fn parse_vless_uuid_invalid_hard_errors() {
    let yaml = r#"
proxies:
  - name: v
    type: vless
    server: example.com
    port: 443
    uuid: "not-a-uuid"
"#;
    assert!(!registered(yaml, "v"));
}

#[test]
fn parse_vless_server_domain_over_255_errors() {
    let long_server = "a".repeat(256);
    let yaml = format!(
        r#"
proxies:
  - name: v
    type: vless
    server: "{long_server}"
    port: 443
    uuid: b831381d-6324-4d53-ad4f-8cda48b30811
"#
    );
    assert!(!registered(&yaml, "v"));
    let e = parse_vless("v", &proxies(&yaml)[0]).unwrap_err();
    assert!(e.contains("domain is 256 bytes; max 255"), "{e}");
}

#[test]
fn parse_vless_ech_inline_invalid_base64_hard_errors() {
    let more = "    tls: true\n    ech-opts:\n      enable: true\n      config: \"!!!definitely_not_base64!!!\"\n";
    assert!(!registered(&base(more), "v"));
}

#[test]
fn parse_vless_ech_disabled_no_op() {
    let more = "    tls: true\n    ech-opts:\n      enable: false\n      config: \"this would fail base64 if it were processed\"\n";
    assert!(registered(&base(more), "v"));
}

#[test]
fn parse_vless_ech_inline_without_boring_tls_skips_proxy() {
    let blob = base64::engine::general_purpose::STANDARD.encode(b"\x00\x01\x02\x03");
    let yaml = format!(
        r#"
proxies:
  - name: ech-on
    type: vless
    server: example.com
    port: 443
    uuid: b831381d-6324-4d53-ad4f-8cda48b30811
    tls: true
    ech-opts:
      enable: true
      config: "{blob}"
"#
    );
    assert!(
        !registered(&yaml, "ech-on"),
        "without boring-tls, a proxy with ECH must NOT register"
    );
    let e = parse_proxy(&proxies(&yaml)[0]).unwrap_err();
    assert_eq!(e, "vless: TLS layer error: encrypted client hellos are not supported");
}

#[test]
fn inline_ech_keys_are_decoded() {
    let more = "    tls: true\n    ech-opts:\n      enable: true\n      config: \"AAECAw==\"\n";
    let v = parse_vless("v", &proxies(&base(more))[0]).unwrap();
    assert_eq!(v.tls.unwrap().ech, Some(vec![0, 1, 2, 3]));
}

#[test]
fn layers_that_cannot_be_built_fail_the_server() {
    let parsed = |more: &str| parse_vless("v", &proxies(&base(more))[0]).unwrap();
    let bad = || Err("no".to_string());
    let both = "    tls: true\n    network: ws\n";
    let e = with_layers(parsed(both), bad(), bad()).unwrap_err();
    assert_eq!(e, "vless: TLS layer error: no");
    let e = with_layers(parsed(both), Ok(()), bad()).unwrap_err();
    assert_eq!(e, "vless: ws layer error: no");
    assert!(with_layers(parsed("    tls: true\n"), Ok(()), bad()).is_ok());
    assert!(with_layers(parsed(""), bad(), bad()).is_ok());
}

#[test]
fn each_missing_field_of_vless_is_named() {
    let cases = [
        ("server", "vless: missing server"),
        ("port", "vless: missing port"),
        ("uuid", "vless: missing uuid"),
    ];
    for (field, message) in cases {
        let mut o = proxies(MINIMAL_VLESS).remove(0);
        o.retain(|(k, _)| k != field);
        assert_eq!(parse_vless("v", &o).unwrap_err(), message);
    }
}
