use meow::anytls::padding::Padding;
use meow::anytls::protocol::{decode, Command, Frame};
use meow::anytls::session::{Action, Session};
use meow::anytls::settings::StringMap;
use meow::anytls::socks::{
    read_socks_addr, target_of, Route, SocksAddr, SocksStep, StreamHandler, Target,
    TcpProxyHandler,
};
use meow::api::configs::{payload_config, NewConfig};
use meow::api::connections::{connection_named, FeedStep, MemoryFeed};
use meow::api::dns::{dns_result, question, KnownName};
use meow::api::groups::{create_proxy_group, delete_proxy_group, GroupRequest};
use meow::api::logs::{write_plain, write_structured, LogLevel};
use meow::api::proxies::{get_provider_proxy, may_select, ProxyState, Selectable};
use meow::api::reply::{msg_err, only};
use meow::api::rules::{drop_target, get_rules, reorder_rules, RunningRule};
use meow::common::rule::RuleType;
use meow::config::dns::normalize_hosts_wildcard;
use meow::config::proxy_registry::{comes_before, sort_strings};
use meow::config::raw::RawProxyGroup;
use meow::config::yaml::{format_number, YamlNumber};
use meow::daemon::service::{macos_dirs, unit_path};
use meow::http::{fetch_at, fetch_via_proxy, sent_on, start_fetch, FetchStep, Outcome, UrlParts};
use meow::net::{
    format_ip, format_ipv4, format_ipv6, hex_digit, parse_ip, parse_ipv4, parse_ipv6, IpAddr,
};
use meow::number::{parse_u16, parse_u8, to_decimal};
use meow::text::{find_char, split, trim, words};

fn strings(v: &[&str]) -> Vec<String> {
    v.iter().map(|s| s.to_string()).collect()
}

fn padding(md5: &str) -> Padding {
    Padding { raw_scheme: b"stop=2\n".to_vec(), md5: md5.to_string(), stop: 2 }
}

#[test]
fn a_server_answers_settings_with_its_own() {
    let mut extra = StringMap::new();
    extra.insert("region", "here");
    let mut server = Session::new_server(1, padding("ours"));
    server.set_server_settings(Some(extra));
    let mut told = StringMap::new();
    told.insert("v", "2");
    told.insert("padding-md5", "theirs");
    let frame = Frame::with_data(Command::Settings, 0, told.to_bytes());
    let (actions, error) = server.handle_frame(frame, 0);
    assert!(error.is_none());
    assert_eq!(server.peer_version(), 0);
    assert_eq!(actions.len(), 3);
    let Action::Write { frame: scheme } = &actions[0] else { panic!("a frame") };
    assert_eq!(scheme.cmd, Command::UpdatePaddingScheme);
    assert_eq!(scheme.data, b"stop=2\n".to_vec());
    let Action::RememberVersion { version } = actions[1] else { panic!("a version") };
    server.remember_version(version);
    assert_eq!(server.peer_version(), 2);
    let Action::Write { frame: settings } = &actions[2] else { panic!("a frame") };
    assert_eq!(settings.cmd, Command::ServerSettings);
    let settings = StringMap::from_bytes(&settings.data);
    assert_eq!(settings.get("v").as_deref(), Some("2"));
    assert_eq!(settings.get("region").as_deref(), Some("here"));
}

#[test]
fn a_client_adopts_the_scheme_of_its_server() {
    let mut client = Session::new_client(1, padding("old"), None, 0);
    client.set_seq(9);
    assert_eq!((client.seq(), client.next_packet()), (9, 0));
    let frame = Frame::with_data(Command::UpdatePaddingScheme, 0, b"stop=5".to_vec());
    let (actions, _) = client.handle_frame(frame, 0);
    assert!(matches!(&actions[0], Action::AdoptScheme { raw } if raw == b"stop=5"));
    client.adopt_padding(padding("new"));
    let mut server = StringMap::new();
    server.insert("v", "2");
    let frame = Frame::with_data(Command::ServerSettings, 0, server.to_bytes());
    client.handle_frame(frame, 0);
    assert_eq!(client.peer_version(), 2);
}

#[test]
fn settings_are_merged() {
    let mut base = StringMap::new();
    base.insert("v", "1");
    let mut more = StringMap::new();
    more.insert("v", "2");
    more.insert("x", "y");
    base.insert_all(&more);
    assert_eq!(base.get("v").as_deref(), Some("2"));
    assert_eq!(base.get("x").as_deref(), Some("y"));
}

#[test]
fn datagrams_have_a_destination_of_their_own() {
    let handler = TcpProxyHandler::new();
    let udp = SocksAddr { addr: "sp.v2.udp-over-tcp.arpa".to_string(), port: 0 };
    assert!(matches!(
        handler.handle_stream(3, 2, &udp),
        Route::Udp(Some(f)) if f.cmd == Command::SynAck && f.stream_id == 3
    ));
    assert!(matches!(handler.handle_stream(3, 1, &udp), Route::Udp(None)));
    let tcp = SocksAddr { addr: "example.com".to_string(), port: 443 };
    assert!(matches!(handler.handle_stream(3, 2, &tcp), Route::Tcp));
}

#[test]
fn a_payload_is_decoded_text() {
    assert!(matches!(
        payload_config(Ok(b"mode: rule".to_vec())),
        Ok(NewConfig::Text(t)) if t == "mode: rule"
    ));
    let e = payload_config(Ok(vec![0xff])).err().unwrap();
    assert_eq!((e.status, e.message.as_deref()), (400, Some("payload is not valid UTF-8")));
    let e = payload_config(Err("odd".to_string())).err().unwrap();
    assert_eq!(e.message.as_deref(), Some("payload is not valid base64"));
}

#[test]
fn memory_is_sampled_while_someone_watches() {
    let mut feed = MemoryFeed::new();
    assert!(feed.subscribe_memory_feed());
    assert!(!feed.subscribe_memory_feed());
    assert!(matches!(feed.tick(1), FeedStep::Sample));
    assert!(matches!(feed.tick(0), FeedStep::Stop));
    assert!(feed.subscribe_memory_feed());
    assert_eq!(connection_named(Some(7)).unwrap(), 7);
    assert_eq!(connection_named(None).err().unwrap().status, 400);
}

#[test]
fn known_names_are_told() {
    let k = KnownName {
        name: "a.example".to_string(),
        ips: vec![IpAddr::V4(0x0102_0304), IpAddr::V6(1)],
        source: Some("1.1.1.1".to_string()),
        ttl: 30,
    };
    let e = dns_result(k);
    assert_eq!(e.ips, strings(&["1.2.3.4", "::1"]));
    assert_eq!((e.from_server.as_deref(), e.ttl), (Some("1.1.1.1"), 30));
    let q = question(Some(1), "a.example").unwrap();
    assert_eq!((q.fqdn.as_str(), q.qtype), ("a.example.", 1));
    assert_eq!(question(Some(28), "a.").unwrap().fqdn, "a.");
    assert_eq!(question(None, "a").err().unwrap().status, 400);
}

#[test]
fn messages_are_written_as_json() {
    let plain = write_plain(LogLevel::Info, "\"hi\"", "1970-01-01T00:00:00Z");
    let plain: serde_json::Value = serde_json::from_str(&plain).unwrap();
    assert_eq!(plain["type"], "info");
    assert_eq!(plain["payload"], "hi");
    assert_eq!(plain["time"], "1970-01-01T00:00:00Z");
    let structured = write_structured(LogLevel::Warning, "\"hi\"", 3_661_000_000_000);
    assert_eq!(
        structured,
        "{\"fields\":[],\"level\":\"warn\",\"message\":\"hi\",\"time\":\"01:01:01\"}"
    );
    assert_eq!((LogLevel::Debug.rank(), LogLevel::Silent.rank()), (0, 4));
}

fn state(name: &str) -> ProxyState {
    ProxyState {
        name: name.to_string(),
        proxy_type: "Direct".to_string(),
        alive: true,
        history: vec![],
        udp: true,
        members: None,
        current: None,
        fixed: None,
        test_url: None,
        expected_status: None,
        last_delay: 0,
    }
}

#[test]
fn proxies_of_a_source_are_found_by_name() {
    let found = get_provider_proxy(Some(vec![state("a"), state("b")]), "b").unwrap();
    assert_eq!(found.name, "b");
    let e = get_provider_proxy(Some(vec![state("a")]), "c").err().unwrap();
    assert_eq!((e.status, e.message.as_deref()), (404, Some("Resource not found")));
    assert_eq!(get_provider_proxy(None, "a").err().unwrap().status, 404);
    assert!(may_select(Selectable::Choice { can_unfix: false }).is_ok());
    assert_eq!(may_select(Selectable::Missing).err().unwrap().status, 404);
    let e = may_select(Selectable::NoChoice).err().unwrap();
    assert_eq!((e.status, e.message.as_deref()), (400, Some("Must be a Selector")));
}

#[test]
fn replies_carry_a_status() {
    let r = msg_err(404, "gone");
    assert_eq!((r.status, r.message.as_deref()), (404, Some("gone")));
    assert_eq!(only(204).message, None);
}

#[test]
fn rules_are_told_and_dropped() {
    let told = get_rules(&vec![RunningRule {
        rule_type: RuleType::DomainSuffix,
        payload: "example.com".to_string(),
        adapter: "DIRECT".to_string(),
    }]);
    assert_eq!((told[0].index, told[0].size), (0, -1));
    assert_eq!(told[0].rule_type, "DOMAIN-SUFFIX");
    assert_eq!(told[0].proxy, "DIRECT");
    let rules = strings(&["DOMAIN,a,pick", "MATCH, pick ", "DOMAIN,pick,DIRECT"]);
    assert_eq!(drop_target(&rules, "pick"), strings(&["DOMAIN,pick,DIRECT"]));
}

#[test]
fn moving_a_rule_back_undoes_the_move() {
    let rules = strings(&["a", "b", "c", "d"]);
    let moved = reorder_rules(Some(rules.clone()), 0, 2).unwrap();
    assert_eq!(moved, strings(&["b", "c", "a", "d"]));
    assert_eq!(reorder_rules(Some(moved), 2, 0).unwrap(), rules);
}

#[test]
fn deleting_a_new_group_leaves_the_others() {
    let old = RawProxyGroup {
        name: "old".to_string(),
        group_type: "select".to_string(),
        ..Default::default()
    };
    let request = GroupRequest {
        name: "new".to_string(),
        group_type: "select".to_string(),
        proxies: strings(&["DIRECT"]),
        url: None,
        interval: None,
        tolerance: None,
    };
    let both = create_proxy_group(Some(vec![old]), request).unwrap();
    assert_eq!(both.len(), 2);
    let left = delete_proxy_group(Some(both), None, "new").unwrap();
    assert_eq!(left.groups.len(), 1);
    assert_eq!(left.groups[0].name, "old");
}

#[test]
fn wildcards_settle_after_one_step() {
    for s in ["*.example.com", "+.example.com", ".example.com", "example.com"] {
        let once = normalize_hosts_wildcard(s);
        assert_eq!(normalize_hosts_wildcard(&once), once);
    }
}

#[test]
fn names_are_sorted_by_their_bytes() {
    assert!(comes_before("B", "a"));
    assert!(!comes_before("a", "a"));
    assert_eq!(sort_strings(&strings(&["b", "a", "B"])), strings(&["B", "a", "b"]));
}

#[test]
fn numbers_are_written_as_they_were() {
    assert_eq!(format_number(&YamlNumber::Unsigned(7)), "7");
    assert_eq!(format_number(&YamlNumber::Negative(-7)), "-7");
    assert_eq!(format_number(&YamlNumber::Other("1.5".to_string())), "1.5");
    assert_eq!(to_decimal(0), "0");
    assert_eq!((parse_u16("65535"), parse_u16("65536")), (Some(65535), None));
    assert_eq!((parse_u8("+7"), parse_u8("-7")), (Some(7), None));
}

#[test]
fn services_have_their_places() {
    assert_eq!(unit_path(), "/etc/systemd/system/meow.service");
    let p = macos_dirs("/Users/u");
    assert_eq!(p.support, "/Users/u/Library/Application Support/meow");
    assert_eq!(p.logs, "/Users/u/Library/Logs/meow");
    assert_eq!(p.agents, "/Users/u/Library/LaunchAgents");
}

fn parts(text: &str) -> UrlParts {
    UrlParts {
        text: text.to_string(),
        scheme: "http".to_string(),
        host: Some("h".to_string()),
        port: Some(80),
        path: "/".to_string(),
        query: None,
    }
}

#[test]
fn a_fetch_follows_five_times() {
    let mut fetch = fetch_at("http://h/", Ok(parts("http://h/"))).unwrap();
    assert!(fetch_at("x", Err("bad".to_string())).is_err());
    let mut followed = 0;
    loop {
        match sent_on(fetch, "http://h/", Ok(parts("http://h/"))) {
            FetchStep::Ask(next) => fetch = next,
            FetchStep::Failed(_) => break,
            FetchStep::Done(_) => panic!("nothing came"),
        }
        followed += 1;
        assert!(followed <= 5);
    }
    assert_eq!(followed, 5);
    let real = start_fetch("http://h/a").unwrap();
    let step = fetch_via_proxy(real, Ok(Outcome::Redirect("/b".to_string())));
    assert!(matches!(step, FetchStep::Ask(f) if f.current.text == "http://h/b"));
}

#[test]
fn addresses_by_family_are_read_and_written() {
    assert_eq!(parse_ipv4("10.0.0.255"), Some(0x0a00_00ff));
    assert_eq!((parse_ipv4("10.0.0.256"), parse_ipv4("010.0.0.1")), (None, None));
    assert_eq!(format_ipv4(0x0a00_00ff), "10.0.0.255");
    assert_eq!(parse_ipv6("2001:db8::1"), Some(0x2001_0db8_0000_0000_0000_0000_0000_0001));
    assert_eq!(format_ipv6(0x2001_0db8_0000_0000_0000_0000_0000_0001), "2001:db8::1");
    assert_eq!((hex_digit('f'), hex_digit('g')), (Some(15), None));
}

#[test]
fn texts_are_taken_apart() {
    assert_eq!(split("a,,b", ','), strings(&["a", "", "b"]));
    assert_eq!(split("", ','), strings(&[""]));
    assert_eq!(trim(" \ta b\u{3000}"), "a b");
    assert_eq!(words(" a  b\t"), strings(&["a", "b"]));
    assert_eq!(find_char(&vec!['a', '=', 'b'], '='), Some(1));
}

#[test]
fn a_destination_by_address_is_dialed_there() {
    let mut v4 = vec![1, 10, 0, 0, 255, 0, 80];
    let mut v6 = vec![4];
    v6.extend(0x2001_0db8_0000_0000_0000_0000_0000_0001_u128.to_be_bytes());
    v6.extend([1, 187]);
    let SocksStep::Done(d) = read_socks_addr(&v4) else { panic!("a destination") };
    assert!(matches!(target_of(&d), Target::Address(IpAddr::V4(0x0a00_00ff), 80)));
    let SocksStep::Done(d) = read_socks_addr(&v6) else { panic!("a destination") };
    assert_eq!(d.addr, "2001:db8::1");
    assert!(matches!(
        target_of(&d),
        Target::Address(IpAddr::V6(0x2001_0db8_0000_0000_0000_0000_0000_0001), 443)
    ));
    v4.truncate(3);
    assert!(matches!(read_socks_addr(&v4), SocksStep::Need(2, _)));
    v6.truncate(17);
    assert!(matches!(read_socks_addr(&v6), SocksStep::Need(2, _)));
}

#[test]
fn addresses_are_read_back() {
    for a in [0, 1, 0xffff_0102_0304, 1 << 64, 0xfe80 << 112, u128::MAX, 0x1_0000_0000_0000] {
        let ip = IpAddr::V6(a);
        assert_eq!(parse_ip(&format_ip(ip)), Some(ip));
    }
    for a in [0, 0x0a00_00ff, u32::MAX] {
        let ip = IpAddr::V4(a);
        assert_eq!(parse_ip(&format_ip(ip)), Some(ip));
    }
    for n in [0, 9, 10, 65535] {
        assert_eq!(parse_u16(&to_decimal(n)), Some(n as u16));
    }
}

#[test]
fn pieces_give_the_same_frames() {
    let mut wire = Vec::new();
    for n in 0..5u8 {
        wire.extend(Frame::data(u32::from(n), vec![n; usize::from(n) * 3]).encode().unwrap());
    }
    let mut at_once = wire.clone();
    let whole = decode(&mut at_once);
    for cut in 0..wire.len() {
        let mut pending = wire[..cut].to_vec();
        let mut frames = decode(&mut pending);
        pending.extend(&wire[cut..]);
        frames.extend(decode(&mut pending));
        assert_eq!(frames.len(), whole.len());
        for (a, b) in frames.iter().zip(&whole) {
            assert_eq!((a.cmd, a.stream_id, &a.data), (b.cmd, b.stream_id, &b.data));
        }
        assert!(pending.is_empty());
    }
}
