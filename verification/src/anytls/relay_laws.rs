//! What holds of destinations, of what is relayed, and of the pool of sessions.

use crate::anytls::pool;
use crate::anytls::pool::{PooledSession, SessionPoolConfig, SessionStatus};
use crate::anytls::protocol;
use crate::anytls::socks;
use crate::anytls::socks::{
    ConnectOutcome, ConnectStep, Direction, ForwardEvent, ForwardStep, Forwarding, SocksAddr,
    SocksError, SocksStep, StreamHandler, Target, TcpProxyHandler, Route,
};
use crate::anytls::udp;
use crate::anytls::udp::{PacketStep, RequestStep, UdpCounters, UdpError, UdpEvent, UdpStep};
use crate::net;
use crate::net::IpAddr;
use crate::number;
use crate::text;
use vstd::prelude::*;
use vstd::string::*;
use vstd::utf8::*;

verus! {

proof fn lemma_be32(n: u32)
    ensures
        number::be32(n).len() == 4,
        protocol::from_be32(
            number::be32(n)[0],
            number::be32(n)[1],
            number::be32(n)[2],
            number::be32(n)[3],
        ) == n,
{
    let f = crate::anytls::protocol::FrameView {
        cmd: crate::anytls::protocol::Command::Waste,
        stream_id: n,
        data: Seq::empty(),
    };
    protocol::law_frames_have_their_layout(f);
    let e = protocol::encoded(f);
    assert(e[1] == number::be32(n)[0] && e[2] == number::be32(n)[1] && e[3] == number::be32(n)[2]
        && e[4] == number::be32(n)[3]);
}

/// A destination is read back from its bytes: the kind of its address, the address or the
/// length and the letters of its name, and its port with the high byte first.
pub proof fn law_destinations_are_read_back(
    a: u32,
    name: Seq<char>,
    six: Seq<u8>,
    port: u16,
    four_step: SocksStep,
    name_step: SocksStep,
    six_step: SocksStep,
)
    requires
        0 < encode_utf8(name).len() <= 255,
        six.len() == 16,
        socks::socks_step(seq![1u8] + number::be32(a) + number::be16(port), four_step),
        socks::socks_step(
            seq![3u8, encode_utf8(name).len() as u8] + encode_utf8(name) + number::be16(port),
            name_step,
        ),
        socks::socks_step(seq![4u8] + six + number::be16(port), six_step),
    ensures
        four_step matches SocksStep::Done(d) && d.addr@ == net::dotted(a) && d.port == port,
        name_step matches SocksStep::Done(d) && d.addr@ == name && d.port == port,
        six_step matches SocksStep::Done(d) && d.addr@ == net::ipv6_text(
            socks::from_be(six) as u128,
        ) && d.port == port,
{
    broadcast use encode_utf8_decode_utf8, encode_utf8_valid_utf8;

    lemma_be32(a);
    number::law_be16_round_trip(port);
    let b = seq![1u8] + number::be32(a) + number::be16(port);
    assert(b[1] == number::be32(a)[0] && b[2] == number::be32(a)[1] && b[3] == number::be32(a)[2]
        && b[4] == number::be32(a)[3]);
    assert(b[5] == number::be16(port)[0] && b[6] == number::be16(port)[1]);
    let e = encode_utf8(name);
    let n = seq![3u8, e.len() as u8] + e + number::be16(port);
    assert(n[1] == e.len());
    assert(n.subrange(2, 2 + n[1]) =~= e);
    let at = 2 + e.len() as int;
    assert(n[at] == number::be16(port)[0] && n[at + 1] == number::be16(port)[1]);
    let s = seq![4u8] + six + number::be16(port);
    assert(s.subrange(1, 17) =~= six);
    assert(s[17] == number::be16(port)[0] && s[18] == number::be16(port)[1]);
}

/// Bytes in network order denote a number with the highest byte first.
pub proof fn law_the_highest_byte_comes_first(b: Seq<u8>, x: u8)
    ensures
        socks::from_be(Seq::empty()) == 0,
        socks::from_be(b.push(x)) == 256 * socks::from_be(b) + x,
{
    assert(b.push(x).drop_last() =~= b);
}

/// A destination of another kind, one without a name, or with one that is no text, is
/// refused; while bytes are missing, as many as are missing are asked for.
pub proof fn law_what_is_no_destination_is_refused(b: Seq<u8>, step: SocksStep)
    requires
        socks::socks_step(b, step),
    ensures
        b.len() > 0 && b[0] != 1 && b[0] != 3 && b[0] != 4 ==> (step matches SocksStep::Invalid(
            SocksError::UnsupportedType(t),
        ) && t == b[0]),
        b.len() > 1 && b[0] == 3 && b[1] == 0 ==> (step matches SocksStep::Invalid(
            SocksError::InvalidDomainLength,
        )),
        step is Invalid ==> b.len() > 0 && b[0] != 1 && b[0] != 4,
        b.len() > 0 && b[0] == 1 && b.len() >= 7 ==> step is Done,
        b.len() > 0 && b[0] == 4 && b.len() >= 19 ==> step is Done,
        b.len() > 0 && b[0] == 1 && b.len() < 7 ==> (step matches SocksStep::Need(n, _) && b.len()
            + n <= 7),
{
}

/// A destination that is an address is dialed there, and a name is looked up, at the port
/// that is given. Datagrams are wanted exactly where the name says so, and a peer that
/// knows acknowledgements is sent one.
pub proof fn law_streams_are_taken_where_they_want(d: &SocksAddr, t: Target)
    requires
        call_ensures(socks::target_of, (d,), t),
    ensures
        net::ip(d.addr@) matches Some(ip) ==> t == Target::Address(ip, d.port),
        net::ip(d.addr@) is None ==> (t matches Target::Resolve(n, p) && n@ == d.addr@ && p
            == d.port),
{
}

/// What is told of a connection that failed names where it was to go: the address, a
/// colon and the port; what went wrong stands at the end.
pub proof fn law_failed_connections_are_told(
    id: u32,
    version: u8,
    d: &SocksAddr,
    reason: String,
    r: ConnectStep,
)
    requires
        call_ensures(
            socks::connect_finished,
            (id, version, d, ConnectOutcome::Failed(reason)),
            r,
        ),
    ensures
        r.error matches Some(e) && reason@.is_suffix_of(e@) && text::has_substring(
            e@,
            d.addr@ + seq![':'] + number::decimal(d.port as nat),
        ),
{
    reveal_strlit(":");
    assert(":"@ =~= seq![':']);
    let shown = d.addr@ + seq![':'] + number::decimal(d.port as nat);
    let e = socks::connect_message(*d, ConnectOutcome::Failed(reason));
    let at = "Failed to connect to "@.len() as int;
    assert(e.subrange(at, at + shown.len()) =~= shown);
    assert(text::occurs_at(e, at, shown));
    assert(e.subrange(e.len() - reason@.len(), e.len() as int) =~= reason@);
}

/// What is read in one direction is written on as it is, and what was written is counted
/// for that direction alone. The end of either direction, or a failure, ends both, and
/// nothing is done after that.
pub proof fn law_forwarding(
    before: Forwarding,
    direction: Direction,
    event: ForwardEvent,
    after: Forwarding,
    step: ForwardStep,
)
    requires
        socks::forwarded(before, direction, event, after, step),
    ensures
        before.finished ==> step is TearDown && after == before,
        step is TearDown ==> after.finished,
        step matches ForwardStep::Write(w) ==> (event matches ForwardEvent::Read(b) && w@ == b@
            && b@.len() > 0) && after == before,
        !before.finished && (event matches ForwardEvent::Read(b) && b@.len() > 0) ==> step is Write,
        !before.finished && (event matches ForwardEvent::Read(b) && b@.len() == 0)
            ==> step is TearDown,
        event is ReadFailed || event is WriteFailed ==> step is TearDown,
        !before.finished && event is Written ==> step is Read && !after.finished,
        !before.finished && event is Written && direction is ToOutbound && before.to_outbound
            + event->Written_0 <= u64::MAX ==> after.to_outbound == before.to_outbound
            + event->Written_0 && after.to_client == before.to_client,
        !before.finished && event is Written && direction is ToClient && before.to_client
            + event->Written_0 <= u64::MAX ==> after.to_client == before.to_client
            + event->Written_0 && after.to_outbound == before.to_outbound,
{
}

/// A request for datagrams is read back from its bytes: that the target is fixed, the kind
/// of its address, the address or the name, and the port. Another kind of request, or of
/// address, is refused.
pub proof fn law_requests_are_read_back(
    a: u32,
    name: Seq<char>,
    six: Seq<u8>,
    port: u16,
    four_step: RequestStep,
    name_step: RequestStep,
    six_step: RequestStep,
    b: Seq<u8>,
    step: RequestStep,
)
    requires
        0 < encode_utf8(name).len() <= 255,
        six.len() == 16,
        udp::request_step(seq![1u8, 1] + number::be32(a) + number::be16(port), four_step),
        udp::request_step(
            seq![1u8, 3, encode_utf8(name).len() as u8] + encode_utf8(name) + number::be16(port),
            name_step,
        ),
        udp::request_step(seq![1u8, 4] + six + number::be16(port), six_step),
        udp::request_step(b, step),
    ensures
        four_step == RequestStep::Done(Target::Address(IpAddr::V4(a), port)),
        name_step matches RequestStep::Done(Target::Resolve(n, p)) && n@ == name && p == port,
        six_step == RequestStep::Done(
            Target::Address(IpAddr::V6(socks::from_be(six) as u128), port),
        ),
        b.len() > 0 && b[0] != 1 ==> step == RequestStep::Invalid(
            UdpError::UnsupportedFormat(b[0]),
        ),
        b.len() > 1 && b[0] == 1 && b[1] != 1 && b[1] != 3 && b[1] != 4 ==> step
            == RequestStep::Invalid(UdpError::UnknownType(b[1])),
{
    broadcast use encode_utf8_decode_utf8, encode_utf8_valid_utf8;

    lemma_be32(a);
    number::law_be16_round_trip(port);
    let f = seq![1u8, 1] + number::be32(a) + number::be16(port);
    assert(f[2] == number::be32(a)[0] && f[3] == number::be32(a)[1] && f[4] == number::be32(a)[2]
        && f[5] == number::be32(a)[3]);
    assert(f[6] == number::be16(port)[0] && f[7] == number::be16(port)[1]);
    let e = encode_utf8(name);
    let n = seq![1u8, 3, e.len() as u8] + e + number::be16(port);
    assert(n[2] == e.len());
    assert(n.subrange(3, 3 + n[2]) =~= e);
    let at = 3 + e.len() as int;
    assert(n[at] == number::be16(port)[0] && n[at + 1] == number::be16(port)[1]);
    let s = seq![1u8, 4] + six + number::be16(port);
    assert(s.subrange(2, 18) =~= six);
    assert(s[18] == number::be16(port)[0] && s[19] == number::be16(port)[1]);
}

/// A datagram goes over a stream as its length, high byte first, and its bytes; one that
/// is too long for that is refused.
pub proof fn law_datagrams_are_framed(payload: &[u8], r: Result<Vec<u8>, UdpError>)
    requires
        call_ensures(udp::encode_udp_packet_simple, (payload,), r),
    ensures
        r is Ok <==> payload@.len() <= 65535,
        r matches Ok(v) ==> v@.len() == payload@.len() + 2 && v@.skip(2) == payload@ && v@[0] * 256
            + v@[1] == payload@.len(),
{
    if let Ok(v) = r {
        number::law_be16_round_trip(payload@.len() as u16);
        assert(v@.skip(2) =~= payload@);
        assert(v@[0] == number::be16(payload@.len() as u16)[0] && v@[1] == number::be16(
            payload@.len() as u16,
        )[1]);
    }
}

/// Datagrams go both ways: what comes from the stream is sent to the target as it is, and
/// what comes from the target goes to the stream with its length before it, where the
/// other side reads it back. What was sent is counted one way and what was delivered the
/// other. The relay ends with the stream, and fails where a side fails otherwise.
pub proof fn law_datagrams_are_relayed(
    before: UdpCounters,
    event: UdpEvent,
    after: UdpCounters,
    step: UdpStep,
    read: PacketStep,
)
    requires
        udp::relayed(before, event, after, step),
    ensures
        event matches UdpEvent::FromStream(p) ==> (p@.len() > 0 ==> (step matches UdpStep::Send(d)
            && d@ == p@)) && (p@.len() == 0 ==> step is Stop),
        event matches UdpEvent::FromTarget(p) ==> (p@.len() <= 65535 ==> (
        step matches UdpStep::Deliver(d) && (udp::packet_step(d@, read) ==> (
        read matches PacketStep::Done(q) && q@ == p@)))) && (p@.len() > 65535
            ==> step is FailWith),
        event is Sent || event is Delivered <==> step is Continue,
        (event matches UdpEvent::Sent(n) && before.packets_out < u64::MAX && before.bytes_out + n
            <= u64::MAX) ==> after.packets_out == before.packets_out + 1 && after.bytes_out
            == before.bytes_out + event->Sent_0 && after.packets_in == before.packets_in
            && after.bytes_in == before.bytes_in,
        (event matches UdpEvent::Delivered(n) && before.packets_in < u64::MAX && before.bytes_in + n
            <= u64::MAX) ==> after.packets_in == before.packets_in + 1 && after.bytes_in
            == before.bytes_in + event->Delivered_0 && after.packets_out == before.packets_out
            && after.bytes_out == before.bytes_out,
        !(event is Sent || event is Delivered) ==> after == before,
        event matches UdpEvent::StreamFailed(m) ==> (step is Stop <==> text::has_substring(
            m@,
            "UnexpectedEof"@,
        ) || text::has_substring(m@, "EOF"@)) && (step is Stop || step is Fail),
        event is SocketFailed ==> step is Fail,
        event is ChannelClosed ==> (step matches UdpStep::FailWith(e) && e is ChannelClosed),
{
    if let UdpEvent::FromTarget(p) = event {
        if p@.len() <= 65535 {
            if let UdpStep::Deliver(d) = step {
                if udp::packet_step(d@, read) {
                    udp::law_packet_round_trip(p@, read);
                }
            }
        }
    }
}

/// A session that is given back stands in the pool, in the place that its number gives
/// it; of two with one number the last counts, and the others stay.
pub proof fn law_sessions_are_put_back(
    idle: Seq<PooledSession>,
    s: PooledSession,
    x: PooledSession,
)
    requires
        pool::ordered(idle),
    ensures
        pool::after_add(idle, s).contains(x) <==> x == s || (idle.contains(x) && x.seq != s.seq),
    decreases idle.len(),
{
    if idle.len() == 0 {
        assert(pool::after_add(idle, s)[0] == s);
    } else {
        let r = idle.drop_last();
        let l = idle.last();
        assert(idle[idle.len() - 1] == l);
        assert(r.push(l) =~= idle);
        assert forall|i: int, j: int| 0 <= i < j < r.len() implies (#[trigger] r[i]).seq < (
        #[trigger] r[j]).seq by {
            assert(r[i] == idle[i] && r[j] == idle[j]);
        }
        lemma_push_has(r, l, x);
        if l.seq < s.seq {
            lemma_push_has(idle, s, x);
            if idle.contains(x) {
                let k = choose|k: int| 0 <= k < idle.len() && idle[k] == x;
                assert(idle[k].seq <= l.seq);
            }
        } else if l.seq == s.seq {
            lemma_push_has(r, s, x);
            if r.contains(x) {
                let k = choose|k: int| 0 <= k < r.len() && r[k] == x;
                assert(idle[k].seq < l.seq);
            }
        } else {
            law_sessions_are_put_back(r, s, x);
            lemma_push_has(pool::after_add(r, s), l, x);
        }
    }
}

proof fn lemma_push_has(d: Seq<PooledSession>, t: PooledSession, x: PooledSession)
    ensures
        d.push(t).contains(x) <==> d.contains(x) || x == t,
{
    let p = d.push(t);
    if d.contains(x) {
        let i = choose|i: int| 0 <= i < d.len() && d[i] == x;
        assert(p[i] == x);
    }
    if x == t {
        assert(p[d.len() as int] == x);
    }
    if p.contains(x) {
        let i = choose|i: int| 0 <= i < p.len() && p[i] == x;
        if i < d.len() {
            assert(d[i] == x);
        }
    }
}

/// A stream is opened on the newest session that is open. That session and the older ones
/// stay in the pool, and the closed ones that are newer are gone; it counts as used from
/// now on. Where every session is closed the pool is empty.
pub proof fn law_the_newest_open_session_is_used(
    idle: Seq<PooledSession>,
    status: Seq<SessionStatus>,
    now: u64,
    i: int,
)
    requires
        idle.len() == status.len(),
        0 <= i < idle.len(),
        !status[i].closed,
        forall|j: int| i < j < status.len() ==> (#[trigger] status[j]).closed,
    ensures
        pool::newest_live(status) == Some(i),
        ({
            let left = pool::after_get(idle, status, now);
            &&& left.len() == i + 1
            &&& left[i] == (PooledSession { seq: idle[i].seq, idle_since: now })
            &&& forall|k: int| 0 <= k < i ==> #[trigger] left[k] == idle[k]
        }),
{
    pool::law_newest_live_session(status);
}

/// Tidying up retires a session that is closed, and one that nothing uses and that was
/// idle for as long as it may be, unless that would leave fewer than are to be kept. Any
/// other stays. Each is decided in turn, from the oldest on.
pub proof fn law_who_is_retired(
    idle: Seq<PooledSession>,
    s: PooledSession,
    status: Seq<SessionStatus>,
    now: u64,
    config: SessionPoolConfig,
)
    requires
        status.len() == idle.len() + 1,
    ensures
        ({
            let had = pool::sweep(idle, status, now, config);
            let all = pool::sweep(idle.push(s), status, now, config);
            let st = status[idle.len() as int];
            let stays = !st.closed && (st.active_streams || now < s.idle_since + config.idle_timeout
                || had.kept.len() < config.min_idle_sessions);
            &&& config.idle_timeout > 0 && stays ==> all.kept == had.kept.push(s) && all.retired
                == had.retired
            &&& config.idle_timeout > 0 && !stays ==> all.kept == had.kept && all.retired
                == had.retired.push(s.seq)
        }),
        pool::sweep(Seq::empty(), status, now, config).kept.len() == 0,
        pool::sweep(Seq::empty(), status, now, config).retired.len() == 0,
{
    assert(idle.push(s).drop_last() =~= idle);
}

/// Unless it is told otherwise, a pool is tidied up every thirty seconds, keeps one
/// session, and lets a session be idle for a minute.
pub proof fn law_the_usual_pool()
    ensures
        pool::default_config() == (SessionPoolConfig {
            check_interval: 30_000,
            idle_timeout: 60_000,
            min_idle_sessions: 1,
        }),
{
}

} // verus!
