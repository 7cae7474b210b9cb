use meow::api::auth::{is_websocket, require_auth_ws};
use meow::api::configs::{
    after_parsing, after_reading, after_rebuilding, apply_update, carry_out, forced, get_configs,
    known_level, put_configs, put_outcome, take_over, update_configs, NewConfig, Taken, Update,
};
use meow::api::connections::{
    close_connection, memory_frame, parse_interval, read_os_memory_limit, traffic_json,
};
use meow::api::delay::{
    delay_reply, get_group_delay, group_delay_reply, parse_delay_params, provider_proxy_budget,
    proxy_delay_budget, GroupState, Measured, Probe,
};
use meow::api::dns::{
    address_answer, asks_for_addresses, dns_query_get, flush_fakeip_cache, forwarded_answer,
    results_limit,
};
use meow::api::groups::{
    check_groups, commit_raw_candidate, create_proxy_group, delete_proxy_group, get_proxy_groups,
    update_proxy_group, GroupRequest, Running,
};
use meow::api::logs::{
    get_logs, log_json, parse_requested_log_level, unix_rfc3339, LogEvent, LogLevel, LogMessage,
    LogStep,
};
use meow::api::metrics::{get_metrics, Measurements, ProxySample, RuleSample};
use meow::api::proxies::{
    get_group, get_groups, select_proxy_in_group, unfix_proxy, update_proxy, ProxyInfo,
    ProxyState, Selectable,
};
use meow::api::reply::Reply;
use meow::api::rules::{delete_rule, reorder_rules, update_rule_at_index};
use meow::api::subscriptions::{
    add_subscription, delete_subscription, fetch_failed, get_subscriptions, refresh_subscription,
    subscription_url, Fetched,
};
use meow::config::assemble::TunnelMode;
use meow::config::raw::{RawConfig, RawDns, RawProxyGroup};
use meow::net::IpAddr;

fn strings(v: &[&str]) -> Vec<String> {
    v.iter().map(|s| s.to_string()).collect()
}

fn text(s: &str) -> Option<String> {
    Some(s.to_string())
}

fn shows(r: &Reply, status: u16, message: &str) {
    assert_eq!(r.status, status);
    assert_eq!(r.message.as_deref(), Some(message));
}

#[test]
fn a_secret_guards_the_interface() {
    let ok = |s: Option<&str>, a: Option<&str>, u: Option<&str>, t: Option<&str>| {
        require_auth_ws(s, a, u, t).is_ok()
    };
    assert!(ok(None, None, None, None));
    assert!(ok(Some(""), None, None, None));
    assert!(!ok(Some("s3"), None, None, None));
    assert!(ok(Some("s3"), Some("Bearer s3"), None, None));
    assert!(!ok(Some("s3"), Some("Bearer s4"), None, None));
    assert!(!ok(Some("s3"), Some("s3"), None, None));
    assert!(!ok(Some("s3"), None, None, Some("s3")));
    assert!(ok(Some("s3"), None, Some("WebSocket"), Some("s3")));
    assert!(!ok(Some("s3"), Some("Bearer x"), Some("websocket"), Some("s3")));
    shows(&require_auth_ws(Some("s3"), None, None, None).unwrap_err(), 401, "Unauthorized");
    assert!(is_websocket(Some("websocket")));
    assert!(!is_websocket(None));
}

#[test]
fn rules_are_changed_in_place() {
    let rules = || Some(strings(&["a", "b", "c"]));
    assert_eq!(update_rule_at_index(rules(), 1, "x".to_string()).unwrap(), strings(&["a", "x", "c"]));
    assert_eq!(delete_rule(rules(), 0).unwrap(), strings(&["b", "c"]));
    assert_eq!(reorder_rules(rules(), 0, 2).unwrap(), strings(&["b", "c", "a"]));
    let back = reorder_rules(Some(reorder_rules(rules(), 0, 2).unwrap()), 2, 0).unwrap();
    assert_eq!(back, strings(&["a", "b", "c"]));
    shows(&update_rule_at_index(None, 0, "x".to_string()).unwrap_err(), 400, "index out of range");
    assert!(delete_rule(rules(), 3).is_err());
    assert!(reorder_rules(rules(), 0, 3).is_err());
}

fn request(name: &str) -> GroupRequest {
    GroupRequest {
        name: name.to_string(),
        group_type: "select".to_string(),
        proxies: strings(&["DIRECT"]),
        url: None,
        interval: Some(5),
        tolerance: None,
    }
}

fn group(name: &str) -> RawProxyGroup {
    RawProxyGroup {
        name: name.to_string(),
        group_type: "fallback".to_string(),
        strategy: text("kept"),
        ..Default::default()
    }
}

#[test]
fn groups_are_made_changed_and_removed() {
    let made = create_proxy_group(None, request("g")).unwrap();
    assert_eq!(made.len(), 1);
    assert_eq!(made[0].proxies, Some(strings(&["DIRECT"])));
    shows(&create_proxy_group(Some(made), request("g")).unwrap_err(), 409, "group name already exists");
    let changed = update_proxy_group(Some(vec![group("a"), group("b")]), "b", request("ignored")).unwrap();
    assert_eq!((changed[1].name.as_str(), changed[1].group_type.as_str()), ("b", "select"));
    assert_eq!(changed[1].strategy.as_deref(), Some("kept"));
    assert_eq!(changed[0].group_type, "fallback");
    shows(&update_proxy_group(None, "b", request("b")).unwrap_err(), 404, "group not found");
    let rules = strings(&["DOMAIN,x,b", "MATCH, b ", "DOMAIN,b,DIRECT"]);
    let left = delete_proxy_group(Some(vec![group("a"), group("b")]), Some(rules), "b").unwrap();
    assert_eq!(left.groups.len(), 1);
    assert_eq!(left.rules, Some(strings(&["DOMAIN,b,DIRECT"])));
    shows(&delete_proxy_group(None, None, "b").unwrap_err(), 404, "no groups");
    shows(&delete_proxy_group(Some(vec![]), None, "b").unwrap_err(), 404, "group not found");
}

#[test]
fn a_group_that_was_not_built_fails_the_change() {
    assert!(check_groups(&strings(&["a"]), &strings(&["b", "a"])).is_ok());
    let e = check_groups(&strings(&["a", "c"]), &strings(&["a"])).unwrap_err();
    shows(&e, 400, "proxy group 'c' failed validation");
    let old = RawConfig {
        port: Some(1),
        ..Default::default()
    };
    let (now, r) = commit_raw_candidate(old, RawConfig::default(), Err(e));
    assert_eq!((now.port, r.is_err()), (Some(1), true));
    let (now, r) = commit_raw_candidate(now, RawConfig::default(), Ok(()));
    assert_eq!((now.port, r.is_ok()), (None, true));
}

#[test]
fn groups_are_told_as_they_run() {
    let groups = vec![
        RawProxyGroup {
            proxies: Some(strings(&["x"])),
            ..group("a")
        },
        group("b"),
    ];
    let running = vec![
        None,
        Some(Running {
            members: Some(strings(&["y", "z"])),
            current: text("z"),
        }),
    ];
    let out = get_proxy_groups(&groups, &running);
    assert_eq!((out[0].proxies.clone(), out[0].now.clone()), (strings(&["x"]), None));
    assert_eq!((out[1].proxies.clone(), out[1].now.clone()), (strings(&["y", "z"]), text("z")));
}

fn fetched() -> Fetched {
    Fetched {
        proxies: vec![vec![]],
        proxy_groups: vec![group("g")],
        rules: strings(&["MATCH,g"]),
    }
}

#[test]
fn subscriptions_replace_what_is_there() {
    let mut raw = RawConfig::default();
    let add = |raw: &mut RawConfig| {
        add_subscription(raw, "s".to_string(), "http://u".to_string(), Some(60), fetched(), 5)
    };
    assert!(add(&mut raw).is_ok());
    shows(&add(&mut raw).unwrap_err(), 409, "subscription name already exists");
    assert_eq!(raw.rules, Some(strings(&["MATCH,g"])));
    assert_eq!(subscription_url(&raw.subscriptions, "s").unwrap(), "http://u");
    shows(&subscription_url(&raw.subscriptions, "t").unwrap_err(), 404, "subscription not found");
    refresh_subscription(&mut raw, "s", fetched(), 9);
    let told = get_subscriptions(&raw);
    assert_eq!((told[0].last_updated, told[0].proxy_count, told[0].rule_count), (Some(9), 1, 1));
    shows(&delete_subscription(&mut raw, "t").unwrap_err(), 404, "subscription not found");
    assert!(delete_subscription(&mut raw, "s").is_ok());
    assert_eq!(raw.rules, Some(vec![]));
    assert_eq!(raw.subscriptions.as_ref().unwrap().len(), 0);
    let mut empty = RawConfig::default();
    shows(&delete_subscription(&mut empty, "s").unwrap_err(), 404, "no subscriptions");
    shows(&fetch_failed("dns"), 400, "fetch failed: dns");
}

#[test]
fn the_configuration_is_told_and_changed() {
    let mut raw = RawConfig {
        mixed_port: Some(7890),
        ..Default::default()
    };
    let c = get_configs(&raw, TunnelMode::Direct);
    assert_eq!((c.mode.as_str(), c.log_level.as_str(), c.bind_address.as_str()), ("direct", "info", "0.0.0.0"));
    assert_eq!((c.mixed_port, c.redir_port, c.allow_lan), (Some(7890), 0, false));
    shows(&update_configs(text("sideways"), None).unwrap_err(), 400, "Body invalid");
    shows(&update_configs(text("rule"), text("loud")).unwrap_err(), 400, "Body invalid");
    let u = update_configs(text("Global"), text("WARN")).unwrap();
    assert_eq!(u.mode, Some(TunnelMode::Global));
    assert_eq!(apply_update(&mut raw, u, Ok(())).status, 204);
    assert_eq!((raw.mode.as_deref(), raw.log_level.as_deref()), (Some("global"), Some("WARN")));
    let u = Update {
        mode: Some(TunnelMode::Rule),
        log_level: text("debug"),
    };
    shows(&apply_update(&mut raw, u, Err("no handle".to_string())), 500, "no handle");
    assert_eq!((raw.mode.as_deref(), raw.log_level.as_deref()), (Some("global"), Some("WARN")));
    let mut mode = TunnelMode::Global;
    let both = || update_configs(text("rule"), text("debug")).unwrap();
    let r = carry_out(&mut raw, &mut mode, both(), Err("no handle".to_string()));
    shows(&r, 500, "no handle");
    assert_eq!((mode, raw.mode.as_deref()), (TunnelMode::Global, Some("global")));
    assert_eq!(carry_out(&mut raw, &mut mode, both(), Ok(())).status, 204);
    assert_eq!((mode, raw.mode.as_deref()), (TunnelMode::Rule, Some("rule")));
    assert_eq!(raw.log_level.as_deref(), Some("debug"));
    assert!(known_level("Silent"));
    assert!(!known_level("trace"));
}

#[test]
fn a_new_configuration_is_taken_over() {
    assert!(matches!(put_configs(text("/c"), text("!")), Ok(NewConfig::File(p)) if p == "/c"));
    assert!(matches!(put_configs(None, text("cG9ydDogMQo=")), Ok(NewConfig::Text(t)) if t == "port: 1\n"));
    shows(&put_configs(None, text("!")).unwrap_err(), 400, "payload is not valid base64");
    shows(&put_configs(None, text("//8=")).unwrap_err(), 400, "payload is not valid UTF-8");
    let e = put_configs(None, None).unwrap_err();
    shows(&e, 400, "request body must contain 'path' or 'payload'");
    assert!(forced(Some("true")));
    assert!(!forced(Some("1")));
    shows(&after_reading(Err("gone".to_string())).unwrap_err(), 400, "gone");
    shows(&after_parsing(Err("bad".to_string())).err().unwrap(), 400, "config parse error: bad");
    let raw = RawConfig {
        mode: text("direct"),
        ..Default::default()
    };
    let broken = || Err("x".to_string());
    shows(&after_rebuilding(&raw, broken(), false).unwrap_err(), 400, "config validation error: x");
    let l = after_rebuilding(&raw, broken(), true).unwrap();
    assert_eq!((l.take_built, l.mode), (false, Some(TunnelMode::Direct)));
    assert!(after_rebuilding(&raw, Ok(()), false).unwrap().take_built);
    let (reply, plan) = take_over(Err(put_configs(None, None).unwrap_err()));
    shows(&reply, 400, "request body must contain 'path' or 'payload'");
    assert!(!plan.close_connections && plan.mode.is_none() && plan.raw.is_none());
    assert_eq!((plan.proxies, plan.rules), (Taken::Untouched, Taken::Untouched));
    let (reply, plan) = take_over(Ok((raw, l)));
    assert_eq!(reply.status, 204);
    assert!(plan.close_connections);
    assert_eq!((plan.proxies, plan.rules), (Taken::Nothing, Taken::Nothing));
    assert_eq!((plan.mode, plan.raw.unwrap().mode), (Some(TunnelMode::Direct), text("direct")));
    let parsed = || Ok(RawConfig { mode: text("direct"), ..Default::default() });
    let read = || Ok("mode: direct\n".to_string());
    let (reply, plan) = put_outcome(text("/c"), None, read(), parsed(), Ok(()), false);
    assert_eq!((reply.status, plan.close_connections), (204, true));
    assert_eq!((plan.proxies, plan.mode), (Taken::Built, Some(TunnelMode::Direct)));
    let (reply, plan) = put_outcome(text("/c"), None, read(), parsed(), broken(), true);
    assert_eq!((reply.status, plan.rules), (204, Taken::Nothing));
    let (reply, plan) = put_outcome(text("/c"), None, read(), parsed(), broken(), false);
    shows(&reply, 400, "config validation error: x");
    assert_eq!((plan.close_connections, plan.proxies), (false, Taken::Untouched));
    let bad = || "bad".to_string();
    let (reply, plan) = put_outcome(text("/c"), None, read(), Err(bad()), Ok(()), true);
    shows(&reply, 400, "config parse error: bad");
    assert!(plan.raw.is_none());
    let (reply, _) = put_outcome(text("/c"), None, Err(bad()), parsed(), Ok(()), true);
    shows(&reply, 400, "bad");
    let (reply, _) = put_outcome(None, text("!"), read(), parsed(), Ok(()), true);
    shows(&reply, 400, "payload is not valid base64");
}

#[test]
fn fake_addresses_are_forgotten() {
    assert_eq!(flush_fakeip_cache(Ok(())).status, 204);
    shows(&flush_fakeip_cache(Err("disk full".to_string())), 400, "disk full");
}

#[test]
fn delays_need_an_address_and_a_budget() {
    assert_eq!(parse_delay_params(&text("http://t"), &text(" 500 ")).unwrap(), 500);
    for (u, t) in [
        (None, text("500")),
        (text("  "), text("500")),
        (text("u"), None),
        (text("u"), text("0")),
        (text("u"), text("65536")),
        (text("u"), text("x")),
    ] {
        shows(&parse_delay_params(&u, &t).unwrap_err(), 400, "Body invalid");
    }
    shows(&proxy_delay_budget(&text("u"), &text("5"), false).unwrap_err(), 404, "resource not found");
    let e = provider_proxy_budget(&text("u"), &text("5"), true, false).unwrap_err();
    shows(&e, 404, "Resource not found");
    assert_eq!(delay_reply(Probe::Delay(7)).unwrap(), 7);
    shows(&delay_reply(Probe::Timeout).unwrap_err(), 504, "Timeout");
    shows(&delay_reply(Probe::Transport).unwrap_err(), 503, "An error occurred in the delay test");
}

#[test]
fn a_group_is_measured_as_a_whole() {
    let g = Some(GroupState {
        members: strings(&["b", "ghost", "a"]),
        can_unfix: true,
    });
    let known = strings(&["a", "b"]);
    let plan = get_group_delay(&g, &known, &text("u"), &text("9")).unwrap();
    assert_eq!((plan.timeout, plan.unfix, plan.members), (9, true, strings(&["b", "a"])));
    shows(&get_group_delay(&None, &known, &None, &None).unwrap_err(), 404, "resource not found");
    shows(&get_group_delay(&g, &known, &None, &None).unwrap_err(), 400, "Body invalid");
    let m = |name: &str, delay: u16, timed_out: bool| Measured {
        name: name.to_string(),
        delay,
        timed_out,
    };
    let out = group_delay_reply(Some(vec![m("b", 2, false), m("a", 1, false), m("b", 3, false)])).unwrap();
    let shown: Vec<(&str, u16)> = out.iter().map(|d| (d.name.as_str(), d.delay)).collect();
    assert_eq!(shown, vec![("a", 1), ("b", 3)]);
    shows(&group_delay_reply(Some(vec![m("a", 0, true)])).unwrap_err(), 504, "Timeout");
    shows(&group_delay_reply(None).unwrap_err(), 504, "Timeout");
}

fn state(name: &str, members: Option<Vec<String>>, last_delay: u16) -> ProxyState {
    ProxyState {
        name: name.to_string(),
        proxy_type: "Direct".to_string(),
        alive: true,
        history: vec![],
        udp: false,
        members,
        current: None,
        fixed: None,
        test_url: None,
        expected_status: None,
        last_delay,
    }
}

#[test]
fn proxies_are_told_of() {
    assert_eq!(ProxyInfo::from_proxy(state("a", None, 0)).delay, None);
    assert_eq!(ProxyInfo::from_proxy(state("a", None, 8)).delay, Some(8));
    let all = vec![state("a", None, 0), state("g", Some(vec![]), 0)];
    let groups = get_groups(all);
    assert_eq!(groups.len(), 1);
    assert_eq!(groups[0].name, "g");
    shows(&get_group(Some(state("a", None, 0))).unwrap_err(), 404, "Resource not found");
    assert!(get_group(Some(state("g", Some(vec![]), 0))).is_ok());
}

#[test]
fn members_are_chosen() {
    let choice = Selectable::Choice { can_unfix: false };
    shows(&update_proxy(Selectable::Missing, Ok(())), 404, "Resource not found");
    shows(&update_proxy(Selectable::NoChoice, Ok(())), 400, "Must be a Selector");
    assert_eq!(update_proxy(choice, Ok(())).status, 204);
    shows(&update_proxy(choice, Err("no".to_string())), 400, "Selector update error: no");
    assert_eq!(select_proxy_in_group(choice, false).status, 400);
    assert_eq!(select_proxy_in_group(choice, true).status, 204);
    shows(&unfix_proxy(choice), 400, "Body invalid");
    assert_eq!(unfix_proxy(Selectable::Choice { can_unfix: true }).status, 204);
}

fn with_dns(enable: Option<bool>) -> RawConfig {
    RawConfig {
        dns: Some(RawDns {
            enable,
            ..Default::default()
        }),
        ..Default::default()
    }
}

#[test]
fn questions_to_the_resolver() {
    let off = dns_query_get(&with_dns(None), "x", &None).unwrap_err();
    shows(&off, 500, "DNS section is disabled");
    let on = with_dns(Some(true));
    shows(&dns_query_get(&on, "x", &text("nope")).unwrap_err(), 400, "invalid query type");
    let q = dns_query_get(&on, "example.com", &None).unwrap();
    assert_eq!((q.fqdn.as_str(), q.qtype), ("example.com.", 1));
    assert!(asks_for_addresses(&q));
    let mx = dns_query_get(&on, "example.com.", &text("mx")).unwrap();
    assert_eq!((mx.fqdn.as_str(), mx.qtype), ("example.com.", 15));
    assert!(!asks_for_addresses(&mx));
    let q6 = dns_query_get(&on, "example.com", &text("aaaa")).unwrap();
    let ips = vec![IpAddr::V4(0x01020304), IpAddr::V6(1)];
    let a = address_answer(&q, &ips);
    assert_eq!(a.answers.len(), 1);
    assert_eq!((a.answers[0].data.as_str(), a.answers[0].ttl), ("1.2.3.4", 60));
    assert_eq!(address_answer(&q6, &ips).answers[0].data, "::1");
    shows(&forwarded_answer(None).unwrap_err(), 500, "DNS query failed");
    assert_eq!((results_limit(None), results_limit(Some(5)), results_limit(Some(9999))), (256, 5, 1024));
}

#[test]
fn reports_on_connections_and_memory() {
    assert_eq!(parse_interval(&None).unwrap(), 1000);
    assert_eq!(parse_interval(&text("250")).unwrap(), 250);
    shows(&parse_interval(&text("0")).unwrap_err(), 400, "Body invalid");
    assert_eq!(close_connection("00000000-0000-0000-0000-00000000000a").unwrap(), 10);
    assert_eq!(close_connection("nonsense").unwrap_err().status, 400);
    assert_eq!(
        traffic_json(1, -2, i64::MIN, 4),
        "{\"up\":1,\"down\":-2,\"upTotal\":-9223372036854775808,\"downTotal\":4}"
    );
    assert_eq!(memory_frame(0, 0), "{\"inuse\":0,\"oslimit\":0}");
    assert_eq!(read_os_memory_limit(&text("4096\n"), Some(1)), 4096);
    assert_eq!(read_os_memory_limit(&text("max\n"), Some(1)), 1);
    assert_eq!(read_os_memory_limit(&None, None), 0);
}

fn message(level: LogLevel, payload: &str) -> LogMessage {
    LogMessage {
        level,
        payload: payload.to_string(),
        time: 1_700_000_000_123_000_000,
    }
}

fn json(s: &str) -> serde_json::Value {
    serde_json::from_str(s).unwrap()
}

#[test]
fn log_message_serialize_info() {
    let v = json(&log_json(&message(LogLevel::Info, "hello"), false));
    assert_eq!(v["type"], "info");
    assert_eq!(v["payload"], "hello");
    assert!(v.get("time").is_some(), "time field must be present");
}

#[test]
fn log_message_serialize_warning_key() {
    let v = json(&log_json(&message(LogLevel::Warning, "w"), false));
    assert_eq!(v["type"], "warning", "must be 'warning' not 'warn'");
}

#[test]
fn log_message_trace_collapses_to_debug() {
    let v = json(&log_json(&message(LogLevel::Debug, "d"), false));
    assert_eq!(v["type"], "debug");
}

#[test]
fn log_message_time_field_is_rfc3339_utc() {
    let v = json(&log_json(&message(LogLevel::Info, "t"), false));
    let ts = v["time"].as_str().expect("time field must be a string");
    assert_eq!(ts, "2023-11-14T22:13:20.123Z");
    assert!(ts.len() >= 20 && ts.contains('T'), "must be RFC3339: {ts}");
    assert!(ts.ends_with('Z') || ts.ends_with("+00:00"), "time must be UTC: {ts}");
}

fn sent(event: &LogEvent, level: LogLevel) -> Option<serde_json::Value> {
    match get_logs(event, level, false) {
        LogStep::Send(s) => Some(json(&s)),
        LogStep::Skip => None,
        LogStep::Stop => panic!("stopped"),
    }
}

#[test]
fn logs_ws_emits_info_events() {
    let v = sent(&LogEvent::Message(message(LogLevel::Info, "hello")), LogLevel::Info).unwrap();
    assert_eq!((v["type"].as_str(), v["payload"].as_str()), (Some("info"), Some("hello")));
}

#[test]
fn logs_ws_emits_warning_events() {
    let v = sent(&LogEvent::Message(message(LogLevel::Warning, "w")), LogLevel::Info).unwrap();
    assert_eq!(v["type"], "warning");
}

#[test]
fn logs_ws_emits_error_events() {
    let v = sent(&LogEvent::Message(message(LogLevel::Error, "e")), LogLevel::Info).unwrap();
    assert_eq!(v["type"], "error");
}

#[test]
fn logs_ws_frame_has_time_field() {
    let v = sent(&LogEvent::Message(message(LogLevel::Info, "t")), LogLevel::Info).unwrap();
    assert!(v["time"].as_str().unwrap().contains('T'));
}

#[test]
fn logs_ws_level_filter_suppresses_debug() {
    let e = LogEvent::Message(message(LogLevel::Debug, "should-not-arrive"));
    assert!(sent(&e, LogLevel::Info).is_none());
}

#[test]
fn logs_ws_level_filter_passes_warning_for_info_client() {
    let e = LogEvent::Message(message(LogLevel::Warning, "warn-msg"));
    let v = sent(&e, LogLevel::Info).unwrap();
    assert_eq!((v["type"].as_str(), v["payload"].as_str()), (Some("warning"), Some("warn-msg")));
}

#[test]
fn logs_ws_level_debug_passes_debug_messages() {
    let e = LogEvent::Message(message(LogLevel::Debug, "dbg"));
    assert_eq!(sent(&e, LogLevel::Debug).unwrap()["type"], "debug");
}

#[test]
fn logs_ws_two_clients_both_receive() {
    let e = LogEvent::Message(message(LogLevel::Info, "broadcast"));
    let v1 = sent(&e, LogLevel::Info).unwrap();
    let v2 = sent(&e, LogLevel::Info).unwrap();
    assert_eq!(v1["payload"], "broadcast");
    assert_eq!(v2["payload"], "broadcast");
}

#[test]
fn logs_ws_lagged_client_continues() {
    let v = sent(&LogEvent::Lagged(16), LogLevel::Info).unwrap();
    assert_eq!(v["type"], "lagged");
    assert_eq!(v["missed"], 16);
    let e = LogEvent::Message(message(LogLevel::Info, "post-lag"));
    assert!(sent(&e, LogLevel::Info).unwrap().get("type").is_some());
    assert!(matches!(get_logs(&LogEvent::Closed, LogLevel::Info, false), LogStep::Stop));
}

#[test]
fn structured_messages_show_a_clock() {
    let s = log_json(&message(LogLevel::Warning, "a\"b"), true);
    assert_eq!(
        s,
        "{\"fields\":[],\"level\":\"warn\",\"message\":\"a\\\"b\",\"time\":\"22:13:20\"}"
    );
    let early = LogMessage {
        time: -1,
        ..message(LogLevel::Info, "x")
    };
    assert!(log_json(&early, true).contains("23:59:59"));
}

#[test]
fn levels_are_asked_for_by_name() {
    assert_eq!(parse_requested_log_level(None).unwrap(), LogLevel::Info);
    assert_eq!(parse_requested_log_level(Some("WARN")).unwrap(), LogLevel::Warning);
    assert_eq!(parse_requested_log_level(Some("silent")).unwrap(), LogLevel::Silent);
    shows(&parse_requested_log_level(Some("trace")).unwrap_err(), 400, "Body invalid");
    assert_eq!(unix_rfc3339(0), None);
    assert_eq!(unix_rfc3339(1_700_000_000).as_deref(), Some("2023-11-14T22:13:20Z"));
}

#[test]
fn metrics_are_exposed() {
    let proxy = |name: &str, delay: Option<u16>| ProxySample {
        name: name.to_string(),
        adapter_type: "Direct".to_string(),
        alive: delay.is_some(),
        delay,
    };
    let m = Measurements {
        upload_total: 10,
        download_total: -1,
        connections: 3,
        proxies: vec![proxy("p", Some(25)), proxy("q", None)],
        rules: vec![RuleSample {
            rule_type: "DOMAIN".to_string(),
            action: "DIRECT".to_string(),
            count: 4,
        }],
        memory: 4096,
        version: "1.0".to_string(),
        mode: "rule".to_string(),
    };
    let s = get_metrics(&m);
    for line in [
        "# HELP meow_traffic_bytes Cumulative bytes transferred since process start.",
        "# TYPE meow_traffic_bytes counter",
        "meow_traffic_bytes_total{direction=\"upload\"} 10",
        "meow_traffic_bytes_total{direction=\"download\"} 0",
        "# TYPE meow_connections_active gauge",
        "meow_connections_active 3",
        "meow_proxy_alive{proxy_name=\"p\",adapter_type=\"Direct\"} 1",
        "meow_proxy_alive{proxy_name=\"q\",adapter_type=\"Direct\"} 0",
        "meow_proxy_delay_ms{proxy_name=\"p\",adapter_type=\"Direct\"} 25",
        "meow_rules_matched_total{rule_type=\"DOMAIN\",action=\"DIRECT\"} 4",
        "meow_memory_rss_bytes 4096",
        "meow_info{version=\"1.0\",mode=\"rule\"} 1",
        "# EOF",
    ] {
        assert!(s.lines().any(|l| l == line), "{line}\n{s}");
    }
    assert!(!s.contains("meow_proxy_delay_ms{proxy_name=\"q\""));
    assert_eq!(s.lines().count(), 14 + 9 + 1);
    assert!(s.ends_with("# EOF\n"));
}
