//! Datagrams over a stream: the udp-over-tcp protocol in its connect form.
//!
//! A stream begins with a request: a byte that says that the target is fixed,
//! and the target's address. After it each datagram is its length in two bytes
//! and its bytes.

use crate::anytls::buf;
use crate::anytls::socks;
use crate::anytls::socks::Target;
use crate::net::IpAddr;
use crate::number;
use crate::text;
use bytes::BytesMut;
use vstd::prelude::*;
use vstd::string::*;
use vstd::utf8::*;

verus! {

/// The longest datagram.
pub const MAX_UDP_PACKET_SIZE: usize = 65535;

/// Why a stream of datagrams failed.
#[derive(Clone, Debug)]
pub enum UdpError {
    UnsupportedFormat(u8),
    UnknownType(u8),
    InvalidDomainLength,
    /// The name is not UTF-8; the text says where.
    InvalidDomainName(String),
    TooLarge(usize),
    ChannelClosed,
}

/// The text of an error.
pub open spec fn udp_message(e: UdpError) -> Seq<char> {
    match e {
        UdpError::UnsupportedFormat(b) => "Unsupported UDP over TCP format: isConnect="@
            + number::decimal(b as nat),
        UdpError::UnknownType(b) => "Unknown address type: "@ + number::decimal(b as nat),
        UdpError::InvalidDomainLength => "Invalid domain length"@,
        UdpError::InvalidDomainName(m) => "Invalid domain name: "@ + m@,
        UdpError::TooLarge(n) => "UDP packet too large: "@ + number::decimal(n as nat) + " bytes"@,
        UdpError::ChannelClosed => "Channel send failed"@,
    }
}

impl UdpError {
    /// The text of the error.
    pub fn message(&self) -> (s: String)
        ensures
            s@ == udp_message(*self),
    {
        match self {
            UdpError::UnsupportedFormat(b) => "Unsupported UDP over TCP format: isConnect=".to_owned().concat(
                number::to_decimal(*b as u64).as_str(),
            ),
            UdpError::UnknownType(b) => "Unknown address type: ".to_owned().concat(
                number::to_decimal(*b as u64).as_str(),
            ),
            UdpError::InvalidDomainLength => "Invalid domain length".to_owned(),
            UdpError::InvalidDomainName(m) => "Invalid domain name: ".to_owned().concat(m.as_str()),
            UdpError::TooLarge(n) => "UDP packet too large: ".to_owned().concat(
                number::to_decimal(*n as u64).as_str(),
            ).concat(" bytes"),
            UdpError::ChannelClosed => "Channel send failed".to_owned(),
        }
    }
}

/// What reading the request needs next.
#[derive(Clone, Debug)]
pub enum RequestStep {
    /// Read this many more bytes.
    Need(usize),
    Done(Target),
    Invalid(UdpError),
}

/// What the bytes of a request say so far.
pub open spec fn request_step(b: Seq<u8>, step: RequestStep) -> bool {
    if b.len() == 0 {
        step == RequestStep::Need(1)
    } else if b[0] != 1 {
        step matches RequestStep::Invalid(e) && e == UdpError::UnsupportedFormat(b[0])
    } else if b.len() == 1 {
        step == RequestStep::Need(1)
    } else if b[1] == 1 {
        if b.len() < 6 {
            step matches RequestStep::Need(n) && n == 6 - b.len()
        } else if b.len() < 8 {
            step matches RequestStep::Need(n) && n == 8 - b.len()
        } else {
            step == RequestStep::Done(
                Target::Address(IpAddr::V4(socks::v4_at(b, 2)), socks::port_at(b, 6)),
            )
        }
    } else if b[1] == 4 {
        if b.len() < 18 {
            step matches RequestStep::Need(n) && n == 18 - b.len()
        } else if b.len() < 20 {
            step matches RequestStep::Need(n) && n == 20 - b.len()
        } else {
            step == RequestStep::Done(
                Target::Address(
                    IpAddr::V6(socks::from_be(b.subrange(2, 18)) as u128),
                    socks::port_at(b, 18),
                ),
            )
        }
    } else if b[1] == 3 {
        if b.len() < 3 {
            step == RequestStep::Need(1)
        } else if b[2] == 0 {
            step matches RequestStep::Invalid(e) && e is InvalidDomainLength
        } else if b.len() < 3 + b[2] {
            step matches RequestStep::Need(n) && n == 3 + b[2] - b.len()
        } else if !valid_utf8(b.subrange(3, 3 + b[2])) {
            step matches RequestStep::Invalid(UdpError::InvalidDomainName(m)) && m@
                == text::utf8_fault(b.subrange(3, 3 + b[2]))
        } else if b.len() < 5 + b[2] {
            step matches RequestStep::Need(n) && n == 5 + b[2] - b.len()
        } else {
            step matches RequestStep::Done(t) && t matches Target::Resolve(name, port) && name@
                == decode_utf8(b.subrange(3, 3 + b[2])) && port == socks::port_at(b, 3 + b[2])
        }
    } else {
        step matches RequestStep::Invalid(e) && e == UdpError::UnknownType(b[1])
    }
}

/// Reading a request comes to an end: each time more bytes are asked for, and never
/// more than 260 in all.
pub proof fn law_reading_a_request_ends(b: Seq<u8>, step: RequestStep)
    requires
        request_step(b, step),
    ensures
        step matches RequestStep::Need(n) ==> 0 < n && b.len() + n <= 260,
{
}

/// Reads the request from the bytes that have come so far.
pub fn read_initial_request(b: &Vec<u8>) -> (step: RequestStep)
    ensures
        request_step(b@, step),
{
    let n: usize = b.len();
    if n == 0 {
        return RequestStep::Need(1);
    }
    if b[0] != 1 {
        return RequestStep::Invalid(UdpError::UnsupportedFormat(b[0]));
    }
    if n == 1 {
        return RequestStep::Need(1);
    }
    match b[1] {
        1 => {
            if n < 6 {
                RequestStep::Need(6 - n)
            } else if n < 8 {
                RequestStep::Need(8 - n)
            } else {
                let port: u16 = number::read_be16(b[6], b[7]);
                RequestStep::Done(Target::Address(IpAddr::V4(socks::read_v4(b, 2)), port))
            }
        },
        4 => {
            if n < 18 {
                RequestStep::Need(18 - n)
            } else if n < 20 {
                RequestStep::Need(20 - n)
            } else {
                let port: u16 = number::read_be16(b[18], b[19]);
                RequestStep::Done(Target::Address(IpAddr::V6(socks::read_v6(b, 2)), port))
            }
        },
        3 => {
            if n < 3 {
                return RequestStep::Need(1);
            }
            let len: usize = b[2] as usize;
            if len == 0 {
                return RequestStep::Invalid(UdpError::InvalidDomainLength);
            }
            if n < 3 + len {
                return RequestStep::Need(3 + len - n);
            }
            let name = text::slice_of(b, 3, 3 + len);
            match text::decode(name.as_slice()) {
                Err(e) => RequestStep::Invalid(UdpError::InvalidDomainName(e)),
                Ok(name) => {
                    if n < 5 + len {
                        RequestStep::Need(5 + len - n)
                    } else {
                        let port: u16 = number::read_be16(b[3 + len], b[4 + len]);
                        RequestStep::Done(Target::Resolve(name, port))
                    }
                },
            }
        },
        t => RequestStep::Invalid(UdpError::UnknownType(t)),
    }
}

/// What reading a datagram needs next.
#[derive(Clone, Debug)]
pub enum PacketStep {
    /// Read this many more bytes.
    Need(usize),
    Done(Vec<u8>),
}

/// What the bytes of a datagram say so far.
pub open spec fn packet_step(b: Seq<u8>, step: PacketStep) -> bool {
    if b.len() < 2 {
        step matches PacketStep::Need(n) && n == 2 - b.len()
    } else {
        let len = number::from_be16(b[0], b[1]);
        if b.len() < 2 + len {
            step matches PacketStep::Need(n) && n == 2 + len - b.len()
        } else {
            step matches PacketStep::Done(p) && p@ == b.subrange(2, 2 + len)
        }
    }
}

/// Reads a datagram from the bytes that have come so far.
pub fn read_udp_packet(b: &Vec<u8>) -> (step: PacketStep)
    ensures
        packet_step(b@, step),
{
    let n: usize = b.len();
    if n < 2 {
        return PacketStep::Need(2 - n);
    }
    let len: usize = number::read_be16(b[0], b[1]) as usize;
    if n < 2 + len {
        PacketStep::Need(2 + len - n)
    } else {
        PacketStep::Done(text::slice_of(b, 2, 2 + len))
    }
}

/// The bytes of a datagram on the stream.
pub open spec fn packet(payload: Seq<u8>) -> Seq<u8> {
    number::be16(payload.len() as u16) + payload
}

/// Writes a datagram.
pub fn encode_udp_packet_simple(payload: &[u8]) -> (r: Result<Vec<u8>, UdpError>)
    ensures
        (match r {
            Ok(v) => payload@.len() <= MAX_UDP_PACKET_SIZE && v@ == packet(payload@),
            Err(e) => payload@.len() > MAX_UDP_PACKET_SIZE && e == UdpError::TooLarge(
                payload@.len() as usize,
            ),
        }),
{
    if payload.len() > MAX_UDP_PACKET_SIZE {
        return Err(UdpError::TooLarge(payload.len()));
    }
    let mut b = BytesMut::new();
    buf::put_u16(&mut b, payload.len() as u16);
    b.extend_from_slice(payload);
    assert(buf::contents(b) =~= packet(payload@));
    Ok(buf::to_vec(&b))
}

/// Reading what a datagram was written as gives the datagram back, and needs
/// no byte more.
pub proof fn law_packet_round_trip(payload: Seq<u8>, step: PacketStep)
    requires
        payload.len() <= MAX_UDP_PACKET_SIZE,
        packet_step(packet(payload), step),
    ensures
        step matches PacketStep::Done(p) && p@ == payload,
{
    let b = packet(payload);
    let len = payload.len() as u16;
    number::law_be16_round_trip(len);
    assert(b[0] == number::be16(len)[0]);
    assert(b[1] == number::be16(len)[1]);
    assert(b.subrange(2, 2 + len) =~= payload);
}

/// What happened to a stream of datagrams.
#[derive(Clone, Debug)]
pub enum UdpEvent {
    /// The stream gave a datagram.
    FromStream(Vec<u8>),
    /// Reading the stream failed, with this message.
    StreamFailed(String),
    /// So many bytes of a datagram were sent to the target.
    Sent(u64),
    /// The target sent a datagram.
    FromTarget(Vec<u8>),
    /// So many bytes of a datagram from the target were put on the stream.
    Delivered(u64),
    /// The stream takes no more bytes.
    ChannelClosed,
    /// The socket failed.
    SocketFailed,
}

/// What is to be done next.
#[derive(Clone, Debug)]
pub enum UdpStep {
    /// Send the datagram to the target.
    Send(Vec<u8>),
    /// Put the bytes on the stream.
    Deliver(Vec<u8>),
    /// Read on.
    Continue,
    /// End without an error.
    Stop,
    /// End with the error that the stream or the socket gave.
    Fail,
    /// End with this error.
    FailWith(UdpError),
}

/// What went each way.
#[derive(Clone, Copy, Debug, PartialEq, Eq, Structural)]
pub struct UdpCounters {
    pub packets_out: u64,
    pub bytes_out: u64,
    pub packets_in: u64,
    pub bytes_in: u64,
}

/// Whether a failed read only means that the stream ended.
pub open spec fn stream_ended(message: Seq<char>) -> bool {
    text::has_substring(message, "UnexpectedEof"@) || text::has_substring(message, "EOF"@)
}

impl UdpCounters {
    /// Nothing went either way yet.
    pub fn new() -> (c: UdpCounters)
        ensures
            c == (UdpCounters { packets_out: 0, bytes_out: 0, packets_in: 0, bytes_in: 0 }),
    {
        UdpCounters { packets_out: 0, bytes_out: 0, packets_in: 0, bytes_in: 0 }
    }
}

/// What a turn of the relay does: what comes from one side goes to the other, and what
/// went is counted.
pub open spec fn relayed(
    before: UdpCounters,
    event: UdpEvent,
    after: UdpCounters,
    step: UdpStep,
) -> bool {
    match event {
        UdpEvent::FromStream(p) => {
            &&& after == before
            &&& if p@.len() == 0 {
                step is Stop
            } else {
                step matches UdpStep::Send(d) && d@ == p@
            }
        },
        UdpEvent::StreamFailed(m) => {
            &&& after == before
            &&& if stream_ended(m@) {
                step is Stop
            } else {
                step is Fail
            }
        },
        UdpEvent::Sent(n) => {
            &&& step is Continue
            &&& after == (UdpCounters {
                packets_out: socks::wrapping_sum(before.packets_out, 1),
                bytes_out: socks::wrapping_sum(before.bytes_out, n),
                ..before
            })
        },
        UdpEvent::FromTarget(p) => {
            &&& after == before
            &&& if p@.len() <= MAX_UDP_PACKET_SIZE {
                step matches UdpStep::Deliver(d) && d@ == packet(p@)
            } else {
                step matches UdpStep::FailWith(e) && e == UdpError::TooLarge(
                    p@.len() as usize,
                )
            }
        },
        UdpEvent::Delivered(n) => {
            &&& step is Continue
            &&& after == (UdpCounters {
                packets_in: socks::wrapping_sum(before.packets_in, 1),
                bytes_in: socks::wrapping_sum(before.bytes_in, n),
                ..before
            })
        },
        UdpEvent::ChannelClosed => {
            &&& after == before
            &&& step matches UdpStep::FailWith(e)
            &&& e is ChannelClosed
        },
        UdpEvent::SocketFailed => step is Fail && after == before,
    }
}

/// One turn of a stream of datagrams. Either direction ends both.
pub fn handle_udp_over_tcp(counters: &mut UdpCounters, event: UdpEvent) -> (step: UdpStep)
    ensures
        relayed(*old(counters), event, *final(counters), step),
{
    match event {
        UdpEvent::FromStream(p) => {
            if p.len() == 0 {
                UdpStep::Stop
            } else {
                UdpStep::Send(p)
            }
        },
        UdpEvent::StreamFailed(m) => {
            if text::contains(m.as_str(), "UnexpectedEof") || text::contains(m.as_str(), "EOF") {
                UdpStep::Stop
            } else {
                UdpStep::Fail
            }
        },
        UdpEvent::Sent(n) => {
            counters.packets_out = counters.packets_out.wrapping_add(1);
            counters.bytes_out = counters.bytes_out.wrapping_add(n);
            UdpStep::Continue
        },
        UdpEvent::FromTarget(p) => {
            match encode_udp_packet_simple(p.as_slice()) {
                Ok(d) => UdpStep::Deliver(d),
                Err(e) => UdpStep::FailWith(e),
            }
        },
        UdpEvent::Delivered(n) => {
            counters.packets_in = counters.packets_in.wrapping_add(1);
            counters.bytes_in = counters.bytes_in.wrapping_add(n);
            UdpStep::Continue
        },
        UdpEvent::ChannelClosed => UdpStep::FailWith(UdpError::ChannelClosed),
        UdpEvent::SocketFailed => UdpStep::Fail,
    }
}

} // verus!
