use meow::anytls::padding::{pad, PadStep, Padding};
use meow::anytls::pool::{SessionPool, SessionPoolConfig, SessionStatus};
use meow::anytls::protocol::{decode, Command, Frame};
use meow::anytls::session::{
    Action, HeartbeatStep, RecvEvent, RecvStep, Session, SessionError, SessionHeartbeatConfig,
    StreamEvent, StreamStep,
};
use meow::anytls::settings::StringMap;
use meow::anytls::socks::{
    connect_finished, read_ended, read_socks_addr, target_of, ConnectOutcome, Direction,
    ForwardEvent, ForwardStep, Forwarding, Reading, SocksAddr, SocksError, SocksStep, Target,
};
use meow::anytls::udp::{
    encode_udp_packet_simple, handle_udp_over_tcp, read_initial_request, read_udp_packet,
    PacketStep, RequestStep, UdpCounters, UdpError, UdpEvent, UdpStep,
};
use meow::net::IpAddr;

fn test_padding() -> Padding {
    Padding {
        raw_scheme: b"stop=8\n0=30-30\n".to_vec(),
        md5: "d41d8cd98f00b204e9800998ecf8427e".to_string(),
        stop: 8,
    }
}

fn client() -> Session {
    Session::new_client(1, test_padding(), None, 0)
}

fn server() -> Session {
    Session::new_server(2, test_padding())
}

/// Hands the frames in the records to a session and gives what it wants written.
fn exchange(to: &mut Session, records: Vec<Vec<u8>>) -> Vec<Frame> {
    let mut pending = Vec::new();
    let mut out = Vec::new();
    for r in records {
        match to.recv_loop(&mut pending, RecvEvent::Read(r)) {
            RecvStep::Handle(frames) => {
                for f in frames {
                    let (actions, error) = to.handle_frame(f, 0);
                    assert!(error.is_none());
                    for a in actions {
                        match a {
                            Action::Write { frame } => out.push(frame),
                            Action::RememberVersion { version } => to.remember_version(version),
                            _ => {}
                        }
                    }
                }
            }
            other => panic!("expected frames, got {other:?}"),
        }
    }
    assert!(pending.is_empty());
    out
}

fn none() -> Vec<PadStep> {
    Vec::new()
}

#[test]
fn test_heartbeat_request_response() {
    let (mut c, mut s) = (client(), server());
    let request = Frame::control(Command::HeartRequest, 0);
    let wire = c.write_control_frame(request, &none()).unwrap();
    let answers = exchange(&mut s, wire);
    assert_eq!(answers.len(), 1);
    assert_eq!(answers[0].cmd, Command::HeartResponse);
    for a in answers {
        let wire = s.write_control_frame(a, &none()).unwrap();
        assert!(exchange(&mut c, wire).is_empty());
    }
    assert!(!c.is_closed(), "Client session should not be closed");
    assert!(!s.is_closed(), "Server session should not be closed");
}

#[test]
fn test_heartbeat_multiple_requests() {
    let (mut c, mut s) = (client(), server());
    for i in 0..5 {
        let request = Frame::control(Command::HeartRequest, i);
        let wire = c.write_control_frame(request, &none()).unwrap();
        for a in exchange(&mut s, wire) {
            assert_eq!((a.cmd, a.stream_id), (Command::HeartResponse, i));
            let wire = s.write_control_frame(a, &none()).unwrap();
            assert!(exchange(&mut c, wire).is_empty());
        }
    }
    assert!(!c.is_closed());
    assert!(!s.is_closed());
}

#[test]
fn test_heartbeat_bidirectional() {
    let (mut a, mut b) = (client(), server());
    let wire = a
        .write_control_frame(Frame::control(Command::HeartRequest, 0), &none())
        .unwrap();
    assert_eq!(exchange(&mut b, wire).len(), 1);
    let wire = b
        .write_control_frame(Frame::control(Command::HeartRequest, 1), &none())
        .unwrap();
    let back = exchange(&mut a, wire);
    assert_eq!(back[0].stream_id, 1);
    assert!(!a.is_closed());
    assert!(!b.is_closed());
}

#[test]
fn heartbeat_closes_a_silent_session() {
    let config = SessionHeartbeatConfig {
        interval: 1000,
        timeout: 3000,
    };
    let mut c = Session::new_client(1, test_padding(), Some(config), 0);
    assert!(matches!(c.heartbeat_tick(3000), HeartbeatStep::Ask(f) if f.cmd == Command::HeartRequest));
    assert!(matches!(c.heartbeat_tick(3001), HeartbeatStep::Close));
    let _ = c.handle_frame(Frame::control(Command::HeartResponse, 0), 3001);
    assert!(matches!(c.heartbeat_tick(6001), HeartbeatStep::Ask(_)));
    let _ = c.close();
    assert!(matches!(c.heartbeat_tick(6001), HeartbeatStep::Exit));
    assert!(matches!(client().heartbeat_tick(0), HeartbeatStep::Exit));
}

#[test]
fn a_server_opens_and_announces_streams() {
    let mut s = server();
    s.set_stream_callback();
    let (actions, error) = s.handle_frame(Frame::control(Command::Syn, 7), 0);
    assert!(error.is_none());
    assert!(matches!(
        actions[0],
        Action::OpenStream {
            stream: 7,
            announce: true
        }
    ));
    assert!(s.has_active_streams());
    let (actions, _) = s.handle_frame(Frame::data(7, vec![1, 2, 3]), 0);
    assert!(matches!(&actions[0], Action::Deliver { stream: 7, data } if *data == vec![1, 2, 3]));
    let _ = s.handle_frame(Frame::control(Command::Fin, 7), 0);
    assert!(!s.has_active_streams());
    let (actions, _) = s.handle_frame(Frame::data(7, vec![4]), 0);
    assert!(actions.is_empty());
}

#[test]
fn an_alert_ends_a_session_with_an_error() {
    let mut c = client();
    let (_, error) = c.handle_frame(
        Frame::with_data(Command::Alert, 0, b"go away".to_vec()),
        0,
    );
    assert!(matches!(error, Some(SessionError::Protocol(m)) if m.contains("go away")));
}

#[test]
fn closing_ends_every_stream_once() {
    let mut c = client();
    let (first, syn) = c.open_stream().unwrap();
    assert_eq!((first, syn.cmd), (1, Command::Syn));
    let (second, _) = c.open_stream().unwrap();
    assert_eq!(second, 2);
    let actions = c.close();
    assert!(matches!(actions[0], Action::NotifyClosed));
    assert_eq!(actions.len(), 6);
    assert!(matches!(actions[5], Action::ShutdownWriter));
    assert!(c.close().is_empty());
    assert!(matches!(c.open_stream(), Err(SessionError::SessionClosed)));
}

#[test]
fn a_client_holds_its_settings_back_until_data_follows() {
    let mut c = client();
    assert_eq!(c.start_client().unwrap(), None);
    let (id, syn) = c.open_stream().unwrap();
    assert!(c.write_frame(syn, &none()).unwrap().is_empty());
    c.disable_buffering();
    let wire = c.write_data_frame(id, vec![9], &none()).unwrap();
    let mut all: Vec<u8> = wire.concat();
    let frames = decode(&mut all);
    let cmds: Vec<Command> = frames.iter().map(|f| f.cmd).collect();
    assert_eq!(cmds, vec![Command::Settings, Command::Syn, Command::Push]);
    let m = StringMap::from_bytes(&frames[0].data);
    assert_eq!(m.get("v").as_deref(), Some("2"));
    assert_eq!(m.get("client").as_deref(), Some("anytls-rs/0.1.0"));
    assert_eq!(
        m.get("padding-md5").as_deref(),
        Some("d41d8cd98f00b204e9800998ecf8427e")
    );
}

#[test]
fn a_frame_that_is_too_large_is_refused() {
    let mut c = client();
    let e = c.write_data_frame(1, vec![0; 65536], &none()).unwrap_err();
    assert!(matches!(e, SessionError::FrameTooLarge));
}

#[test]
fn padded_records_decode_to_the_same_frames() {
    let mut c = client();
    let steps = vec![PadStep::Size(20), PadStep::Check, PadStep::Size(100)];
    let wire = c.write_data_frame(3, (0..40).collect(), &steps).unwrap();
    assert_eq!(wire[0].len(), 20);
    assert_eq!(wire[1].len(), 100);
    let mut all: Vec<u8> = wire.concat();
    let frames = decode(&mut all);
    assert!(all.is_empty());
    let kept: Vec<&Frame> = frames.iter().filter(|f| f.cmd != Command::Waste).collect();
    assert_eq!(kept.len(), 1);
    assert_eq!(kept[0].data, (0..40).collect::<Vec<u8>>());
    assert!(frames.iter().any(|f| f.cmd == Command::Waste));
}

#[test]
fn held_frames_go_out_once_and_in_order() {
    let mut c = client();
    let _ = c.start_client().unwrap();
    let mut expected = Vec::new();
    for n in 0..20u8 {
        let f = Frame::data(5, vec![n; n as usize]);
        expected.extend(f.encode().unwrap());
        let steps = vec![PadStep::Size(9)];
        assert!(c.write_frame(f, &steps).unwrap().is_empty());
    }
    c.disable_buffering();
    let last = Frame::control(Command::Fin, 5);
    expected.extend(last.encode().unwrap());
    let steps = vec![PadStep::Size(64), PadStep::Check, PadStep::Size(500), PadStep::Size(0)];
    let wire: Vec<u8> = c.write_frame(last, &steps).unwrap().concat();
    let mut settings = wire.clone();
    let first = decode(&mut settings).remove(0).encode().unwrap();
    let sent = [first.clone(), expected].concat();
    assert_eq!(&wire[..sent.len()], &sent[..]);
    let mut behind = wire[sent.len()..].to_vec();
    for f in decode(&mut behind) {
        assert_eq!((f.cmd, f.stream_id), (Command::Waste, 0));
        assert!(f.data.iter().all(|b| *b == 0));
    }
    assert!(behind.is_empty());
    let next = Frame::data(5, vec![1]);
    let alone = next.encode().unwrap();
    assert_eq!(c.write_frame(next, &none()).unwrap(), vec![alone]);
}

#[test]
fn packets_that_are_not_padded_go_out_as_they_are() {
    let steps = vec![PadStep::Size(100)];
    let f = Frame::data(1, vec![7; 3]);
    let bytes = f.encode().unwrap();
    assert_eq!(server().write_frame(f.clone(), &steps).unwrap(), vec![bytes.clone()]);
    assert_eq!(client().write_frame(f.clone(), &none()).unwrap(), vec![bytes.clone()]);
    let mut c = client();
    for _ in 0..8 {
        assert_eq!(c.write_frame(f.clone(), &steps).unwrap()[0].len(), 100);
    }
    assert_eq!(c.write_frame(f, &steps).unwrap(), vec![bytes]);
}

#[test]
fn padding_stops_at_a_check_once_the_payload_is_out() {
    let steps = vec![PadStep::Size(30), PadStep::Check, PadStep::Size(30)];
    let out = pad(&vec![7; 10], &steps);
    assert_eq!(out.len(), 1);
    assert_eq!(out[0].len(), 30);
    assert_eq!(&out[0][..10], &[7; 10]);
    assert_eq!(out[0][10], 0);
    assert_eq!(u16::from_be_bytes([out[0][15], out[0][16]]), 13);
}

#[test]
fn frames_come_back_in_pieces() {
    let f = Frame::data(0x01020304, vec![5, 6]);
    let bytes = f.encode().unwrap();
    assert_eq!(bytes, vec![2, 1, 2, 3, 4, 0, 2, 5, 6]);
    let mut pending = bytes[..4].to_vec();
    assert!(decode(&mut pending).is_empty());
    pending.extend_from_slice(&bytes[4..]);
    let got = decode(&mut pending);
    assert_eq!(got.len(), 1);
    assert_eq!(got[0].data, vec![5, 6]);
    assert!(pending.is_empty());
}

#[test]
fn commands_are_read_back_from_their_codes() {
    for b in 0..=255u8 {
        assert_eq!(Command::from_byte(b).to_byte(), b);
    }
    assert_eq!(Command::from_byte(200), Command::Other(200));
}

#[test]
fn a_broken_connection_closes_the_session() {
    let mut pending = Vec::new();
    let mut c = client();
    let step = c.recv_loop(
        &mut pending,
        RecvEvent::Failed {
            message: "peer closed without close_notify".to_string(),
            unexpected_eof: false,
        },
    );
    assert!(matches!(step, RecvStep::Stop(_)));
    assert!(c.is_closed());
    let mut c = client();
    let step = c.recv_loop(
        &mut pending,
        RecvEvent::Failed {
            message: "connection reset".to_string(),
            unexpected_eof: false,
        },
    );
    assert!(matches!(
        step,
        RecvStep::Fail(_, SessionError::Io(reason)) if reason == "connection reset"
    ));
    let mut c = client();
    assert!(matches!(c.recv_loop(&mut pending, RecvEvent::Round), RecvStep::Read));
    assert!(matches!(c.recv_loop(&mut pending, RecvEvent::Read(vec![])), RecvStep::Stop(_)));
}

#[test]
fn streams_are_sent_until_their_end() {
    let mut c = client();
    let (id, _) = c.open_stream().unwrap();
    assert!(matches!(c.process_stream_data(StreamEvent::Start), StreamStep::Wait));
    let step = c.process_stream_data(StreamEvent::Data {
        stream: id,
        data: vec![1],
    });
    assert!(matches!(step, StreamStep::Write(f) if f.cmd == Command::Push));
    let step = c.process_stream_data(StreamEvent::Data {
        stream: id,
        data: vec![],
    });
    assert!(matches!(step, StreamStep::TryWrite(f) if f.cmd == Command::Fin));
    assert!(!c.has_active_streams());
    assert!(matches!(c.process_stream_data(StreamEvent::Ended), StreamStep::Stop));
    assert!(matches!(c.process_stream_data(StreamEvent::Start), StreamStep::Stop));
}

#[test]
fn a_failed_write_closes_the_session() {
    let mut c = client();
    let (id, _) = c.open_stream().unwrap();
    let (actions, error) = c.write_failed("broken pipe".to_string());
    assert!(c.is_closed());
    assert!(!c.has_active_streams());
    assert!(matches!(error, SessionError::Io(reason) if reason == "broken pipe"));
    assert_eq!(actions.len(), 4);
    assert!(matches!(actions[0], Action::NotifyClosed));
    assert!(matches!(actions[1], Action::CloseStream { stream, .. } if stream == id));
    assert!(matches!(actions[3], Action::ShutdownWriter));
    assert!(c.open_stream().is_err());
    let (actions, _) = c.write_failed("again".to_string());
    assert!(actions.is_empty());
}

#[test]
fn test_default_config() {
    let config = SessionPoolConfig::default();
    assert_eq!(config.check_interval, 30_000);
    assert_eq!(config.idle_timeout, 60_000);
    assert_eq!(config.min_idle_sessions, 1);
}

#[test]
fn test_custom_config() {
    let config = SessionPoolConfig {
        check_interval: 10_000,
        idle_timeout: 30_000,
        min_idle_sessions: 5,
    };
    assert_eq!(config.check_interval, 10_000);
    assert_eq!(config.idle_timeout, 30_000);
    assert_eq!(config.min_idle_sessions, 5);
}

#[test]
fn test_session_pool_creation() {
    let pool = SessionPool::new();
    assert_eq!(pool.idle_count(), 0);
}

#[test]
fn test_next_seq() {
    let mut pool = SessionPool::new();
    assert_eq!(pool.next_seq(), 1);
    assert_eq!(pool.next_seq(), 2);
    assert_eq!(pool.next_seq(), 3);
}

#[test]
fn test_get_idle_session_empty() {
    let mut pool = SessionPool::new();
    assert!(pool.get_idle_session(&Vec::new(), 0).is_none());
}

const LIVE: SessionStatus = SessionStatus {
    closed: false,
    active_streams: false,
};
const BUSY: SessionStatus = SessionStatus {
    closed: false,
    active_streams: true,
};
const CLOSED: SessionStatus = SessionStatus {
    closed: true,
    active_streams: false,
};

#[test]
fn the_newest_live_session_is_reused() {
    let mut pool = SessionPool::new();
    for seq in 1..=3 {
        pool.add_idle_session(seq, false, 0);
    }
    pool.add_idle_session(4, true, 0);
    assert_eq!(pool.idle_seqs(), vec![1, 2, 3]);
    assert_eq!(pool.get_idle_session(&vec![LIVE, LIVE, CLOSED], 5), Some(2));
    assert_eq!(pool.idle_seqs(), vec![1, 2]);
}

#[test]
fn cleanup_spares_busy_sessions_and_keeps_the_minimum() {
    let mut pool = SessionPool::with_config(SessionPoolConfig {
        check_interval: 1,
        idle_timeout: 10,
        min_idle_sessions: 1,
    });
    for seq in 1..=4 {
        pool.add_idle_session(seq, false, 0);
    }
    let retired = pool.cleanup_expired(&vec![LIVE, BUSY, LIVE, CLOSED], 100);
    assert_eq!(retired, vec![3, 4]);
    assert_eq!(pool.idle_seqs(), vec![1, 2]);
}

#[test]
fn test_read_udp_packet_length() {
    let payload = b"Test UDP data";
    let encoded = encode_udp_packet_simple(payload).unwrap();
    let len = u16::from_be_bytes([encoded[0], encoded[1]]) as usize;
    assert_eq!(len, payload.len());
    assert_eq!(encoded.len(), 2 + payload.len());
    assert_eq!(&encoded[2..], payload);
}

#[test]
fn test_encode_empty_packet() {
    let encoded = encode_udp_packet_simple(b"").unwrap();
    assert_eq!(encoded.len(), 2);
    assert_eq!(u16::from_be_bytes([encoded[0], encoded[1]]), 0);
}

#[test]
fn test_encode_large_packet() {
    let payload = vec![0u8; 65535];
    let encoded = encode_udp_packet_simple(&payload).unwrap();
    assert_eq!(encoded.len(), 2 + 65535);
    assert_eq!(u16::from_be_bytes([encoded[0], encoded[1]]), 65535);
}

#[test]
fn test_encode_too_large_packet() {
    let payload = vec![0u8; 65536];
    let e = encode_udp_packet_simple(&payload).unwrap_err();
    assert!(e.message().contains("too large"));
}

#[test]
fn datagrams_round_trip() {
    let encoded = encode_udp_packet_simple(b"ping").unwrap();
    assert!(matches!(read_udp_packet(&vec![0]), PacketStep::Need(1)));
    assert!(matches!(read_udp_packet(&encoded[..3].to_vec()), PacketStep::Need(3)));
    assert!(matches!(read_udp_packet(&encoded), PacketStep::Done(p) if p == b"ping"));
}

#[test]
fn requests_for_datagrams_are_read() {
    assert!(matches!(read_initial_request(&vec![]), RequestStep::Need(1)));
    assert!(matches!(
        read_initial_request(&vec![2]),
        RequestStep::Invalid(UdpError::UnsupportedFormat(2))
    ));
    assert!(matches!(
        read_initial_request(&vec![1, 9]),
        RequestStep::Invalid(UdpError::UnknownType(9))
    ));
    let v4 = vec![1, 1, 8, 8, 4, 4, 0, 53];
    assert!(matches!(
        read_initial_request(&v4),
        RequestStep::Done(Target::Address(IpAddr::V4(0x08080404), 53))
    ));
    let empty = vec![1, 3, 0];
    assert!(matches!(
        read_initial_request(&empty),
        RequestStep::Invalid(UdpError::InvalidDomainLength)
    ));
}

#[test]
fn datagrams_are_counted() {
    let mut n = UdpCounters::new();
    assert!(matches!(
        handle_udp_over_tcp(&mut n, UdpEvent::FromStream(vec![1, 2])),
        UdpStep::Send(d) if d == vec![1, 2]
    ));
    assert!(matches!(handle_udp_over_tcp(&mut n, UdpEvent::Sent(2)), UdpStep::Continue));
    assert_eq!((n.packets_out, n.bytes_out), (1, 2));
    assert!(matches!(
        handle_udp_over_tcp(&mut n, UdpEvent::StreamFailed("early EOF".to_string())),
        UdpStep::Stop
    ));
    assert!(matches!(
        handle_udp_over_tcp(&mut n, UdpEvent::ChannelClosed),
        UdpStep::FailWith(UdpError::ChannelClosed)
    ));
}

#[test]
fn destinations_are_read() {
    assert!(matches!(
        read_socks_addr(&vec![]),
        SocksStep::Need(1, Reading::AddressType)
    ));
    let v4 = vec![1, 127, 0, 0, 1, 0x1f, 0x90];
    match read_socks_addr(&v4) {
        SocksStep::Done(a) => assert_eq!((a.addr.as_str(), a.port), ("127.0.0.1", 8080)),
        other => panic!("{other:?}"),
    }
    let mut name = vec![3, 11];
    name.extend_from_slice(b"example.com");
    name.extend_from_slice(&[1, 0xbb]);
    match read_socks_addr(&name) {
        SocksStep::Done(a) => {
            assert_eq!((a.addr.as_str(), a.port), ("example.com", 443));
            assert_eq!(a.show(), "example.com:443");
            assert!(matches!(target_of(&a), Target::Resolve(n, 443) if n == "example.com"));
        }
        other => panic!("{other:?}"),
    }
    let mut v6 = vec![4];
    v6.extend_from_slice(&[0; 15]);
    v6.extend_from_slice(&[1, 0, 80]);
    match read_socks_addr(&v6) {
        SocksStep::Done(a) => assert_eq!((a.addr.as_str(), a.port), ("::1", 80)),
        other => panic!("{other:?}"),
    }
    assert!(matches!(
        read_socks_addr(&vec![9]),
        SocksStep::Invalid(SocksError::UnsupportedType(9))
    ));
    assert!(matches!(
        read_socks_addr(&vec![3, 0]),
        SocksStep::Invalid(SocksError::InvalidDomainLength)
    ));
    let e = read_ended(Reading::Port, "early eof".to_string());
    assert!(matches!(e, SocksError::Failed(Reading::Port, m) if m == "early eof"));
}

#[test]
fn a_failed_connection_is_told_to_the_peer() {
    let d = SocksAddr {
        addr: "example.com".to_string(),
        port: 443,
    };
    let step = connect_finished(5, 2, &d, ConnectOutcome::Connected);
    assert_eq!(step.frame.unwrap().cmd, Command::SynAck);
    assert!(step.error.is_none());
    let step = connect_finished(5, 2, &d, ConnectOutcome::Failed("refused".to_string()));
    let f = step.frame.unwrap();
    assert_eq!(f.cmd, Command::SynAck);
    assert!(!f.data.is_empty());
    assert!(step.error.unwrap().contains("Failed to connect to example.com:443: refused"));
    let step = connect_finished(5, 1, &d, ConnectOutcome::Connected);
    assert!(step.frame.is_none());
}

#[test]
fn forwarding_ends_when_either_side_does() {
    let mut f = Forwarding::new();
    assert!(matches!(
        f.step(Direction::ToOutbound, ForwardEvent::Read(vec![1])),
        ForwardStep::Write(d) if d == vec![1]
    ));
    assert!(matches!(
        f.step(Direction::ToOutbound, ForwardEvent::Written(1)),
        ForwardStep::Read
    ));
    assert_eq!(f.to_outbound, 1);
    assert!(matches!(
        f.step(Direction::ToClient, ForwardEvent::Read(vec![])),
        ForwardStep::TearDown
    ));
}

#[test]
fn settings_round_trip() {
    let mut m = StringMap::new();
    m.insert("v", "2");
    m.insert("client", "meow");
    m.insert("v", "3");
    let back = StringMap::from_bytes(&m.to_bytes());
    assert_eq!(back.get("v").as_deref(), Some("3"));
    assert_eq!(back.get("client").as_deref(), Some("meow"));
    assert_eq!(back.get("missing"), None);
}
