//! Where a stream wants to go, and how a server takes it there.

use crate::anytls::protocol;
use crate::anytls::protocol::{Command, Frame, FrameView};
use crate::net;
use crate::net::IpAddr;
use crate::net_laws;
use crate::number;
use crate::text;
use vstd::prelude::*;
use vstd::string::*;
use vstd::utf8::*;

verus! {

/// A destination: an address or a name, as text, and a port.
#[derive(Clone, Debug)]
pub struct SocksAddr {
    pub addr: String,
    pub port: u16,
}

/// The part of a destination that is being read.
#[derive(Clone, Copy, Debug, PartialEq, Eq, Structural)]
pub enum Reading {
    AddressType,
    Ipv4,
    DomainLength,
    Domain,
    Ipv6,
    Port,
}

/// Why a destination could not be read.
#[derive(Clone, Debug)]
pub enum SocksError {
    /// The stream failed, with this message, while the part was read.
    Failed(Reading, String),
    UnsupportedType(u8),
    InvalidDomainLength,
    /// The name is not UTF-8; the text says where.
    InvalidDomainName(String),
}

/// What reading a destination needs next.
#[derive(Clone, Debug)]
pub enum SocksStep {
    /// Read this many more bytes.
    Need(usize, Reading),
    Done(SocksAddr),
    Invalid(SocksError),
}

/// The number in the last two of the bytes.
pub open spec fn port_at(b: Seq<u8>, at: int) -> u16 {
    number::from_be16(b[at], b[at + 1])
}

/// The IPv4 address in four bytes.
pub open spec fn v4_at(b: Seq<u8>, at: int) -> u32 {
    protocol::from_be32(b[at], b[at + 1], b[at + 2], b[at + 3])
}

/// The number that bytes in network order denote.
pub open spec fn from_be(b: Seq<u8>) -> nat
    decreases b.len(),
{
    if b.len() == 0 {
        0
    } else {
        256 * from_be(b.drop_last()) + b.last() as nat
    }
}

/// What the bytes of a destination say so far: the type of address, the address,
/// and the port.
pub open spec fn socks_step(b: Seq<u8>, step: SocksStep) -> bool {
    if b.len() == 0 {
        step matches SocksStep::Need(n, r) && n == 1 && r is AddressType
    } else if b[0] == 1 {
        if b.len() < 5 {
            step matches SocksStep::Need(n, r) && n == 5 - b.len() && r is Ipv4
        } else if b.len() < 7 {
            step matches SocksStep::Need(n, r) && n == 7 - b.len() && r is Port
        } else {
            step matches SocksStep::Done(a) && a.addr@ == net::dotted(v4_at(b, 1)) && a.port
                == port_at(b, 5)
        }
    } else if b[0] == 4 {
        if b.len() < 17 {
            step matches SocksStep::Need(n, r) && n == 17 - b.len() && r is Ipv6
        } else if b.len() < 19 {
            step matches SocksStep::Need(n, r) && n == 19 - b.len() && r is Port
        } else {
            step matches SocksStep::Done(a) && a.addr@ == net::ipv6_text(
                from_be(b.subrange(1, 17)) as u128,
            ) && a.port == port_at(b, 17)
        }
    } else if b[0] == 3 {
        if b.len() < 2 {
            step matches SocksStep::Need(n, r) && n == 1 && r is DomainLength
        } else if b[1] == 0 {
            step matches SocksStep::Invalid(e) && e is InvalidDomainLength
        } else if b.len() < 2 + b[1] {
            step matches SocksStep::Need(n, r) && n == 2 + b[1] - b.len() && r is Domain
        } else if !valid_utf8(b.subrange(2, 2 + b[1])) {
            step matches SocksStep::Invalid(SocksError::InvalidDomainName(m)) && m@
                == text::utf8_fault(b.subrange(2, 2 + b[1]))
        } else if b.len() < 4 + b[1] {
            step matches SocksStep::Need(n, r) && n == 4 + b[1] - b.len() && r is Port
        } else {
            step matches SocksStep::Done(a) && a.addr@ == decode_utf8(b.subrange(2, 2 + b[1]))
                && a.port == port_at(b, 2 + b[1])
        }
    } else {
        step matches SocksStep::Invalid(e) && e matches SocksError::UnsupportedType(t) && t == b[0]
    }
}

proof fn lemma_be_bound(b: Seq<u8>)
    requires
        b.len() <= 16,
    ensures
        b.len() == 0 ==> from_be(b) == 0,
        b.len() == 1 ==> from_be(b) < 0x100,
        b.len() == 2 ==> from_be(b) < 0x1_0000,
        b.len() == 3 ==> from_be(b) < 0x100_0000,
        b.len() == 4 ==> from_be(b) < 0x1_0000_0000,
        b.len() == 5 ==> from_be(b) < 0x100_0000_0000,
        b.len() == 6 ==> from_be(b) < 0x1_0000_0000_0000,
        b.len() == 7 ==> from_be(b) < 0x100_0000_0000_0000,
        b.len() == 8 ==> from_be(b) < 0x1_0000_0000_0000_0000,
        b.len() == 9 ==> from_be(b) < 0x100_0000_0000_0000_0000,
        b.len() == 10 ==> from_be(b) < 0x1_0000_0000_0000_0000_0000,
        b.len() == 11 ==> from_be(b) < 0x100_0000_0000_0000_0000_0000,
        b.len() == 12 ==> from_be(b) < 0x1_0000_0000_0000_0000_0000_0000,
        b.len() == 13 ==> from_be(b) < 0x100_0000_0000_0000_0000_0000_0000,
        b.len() == 14 ==> from_be(b) < 0x1_0000_0000_0000_0000_0000_0000_0000,
        b.len() == 15 ==> from_be(b) < 0x100_0000_0000_0000_0000_0000_0000_0000,
        b.len() == 16 ==> from_be(b) <= 0xffff_ffff_ffff_ffff_ffff_ffff_ffff_ffff,
    decreases b.len(),
{
    if b.len() > 0 {
        lemma_be_bound(b.drop_last());
    }
}

/// The IPv6 address in sixteen bytes.
pub fn read_v6(b: &Vec<u8>, at: usize) -> (r: u128)
    requires
        at + 16 <= b@.len(),
    ensures
        r == from_be(b@.subrange(at as int, at + 16)),
{
    let ghost all = b@.subrange(at as int, at + 16);
    let n: usize = b.len();
    let mut r: u128 = 0;
    let mut i: usize = 0;
    while i < 16
        invariant
            i <= 16,
            n == b@.len(),
            at + 16 <= b@.len(),
            all == b@.subrange(at as int, at + 16),
            r == from_be(all.take(i as int)),
        decreases 16 - i,
    {
        proof {
            let now = all.take(i + 1);
            assert(now.drop_last() == all.take(i as int));
            lemma_be_bound(now);
        }
        r = r * 256 + b[at + i] as u128;
        i += 1;
    }
    assert(all.take(16) == all);
    r
}

/// The IPv4 address in four bytes.
pub fn read_v4(b: &Vec<u8>, at: usize) -> (r: u32)
    requires
        at + 4 <= b@.len(),
    ensures
        r == v4_at(b@, at as int),
{
    let n: usize = b.len();
    assert(at + 4 <= n);
    b[at] as u32 * 0x100_0000 + b[at + 1] as u32 * 0x1_0000 + b[at + 2] as u32 * 0x100 + b[at
        + 3] as u32
}

/// Reading a destination comes to an end: each time more bytes are asked for, and
/// never more than 259 in all.
pub proof fn law_reading_a_destination_ends(b: Seq<u8>, step: SocksStep)
    requires
        socks_step(b, step),
    ensures
        step matches SocksStep::Need(n, _) ==> 0 < n && b.len() + n <= 259,
{
}

/// Reads the destination of a stream from the bytes that have come so far.
pub fn read_socks_addr(b: &Vec<u8>) -> (step: SocksStep)
    ensures
        socks_step(b@, step),
{
    let n: usize = b.len();
    if n == 0 {
        return SocksStep::Need(1, Reading::AddressType);
    }
    match b[0] {
        1 => {
            if n < 5 {
                SocksStep::Need(5 - n, Reading::Ipv4)
            } else if n < 7 {
                SocksStep::Need(7 - n, Reading::Port)
            } else {
                let addr = net::format_ipv4(read_v4(b, 1));
                SocksStep::Done(SocksAddr { addr, port: number::read_be16(b[5], b[6]) })
            }
        },
        4 => {
            if n < 17 {
                SocksStep::Need(17 - n, Reading::Ipv6)
            } else if n < 19 {
                SocksStep::Need(19 - n, Reading::Port)
            } else {
                let addr = net::format_ipv6(read_v6(b, 1));
                SocksStep::Done(SocksAddr { addr, port: number::read_be16(b[17], b[18]) })
            }
        },
        3 => {
            if n < 2 {
                return SocksStep::Need(1, Reading::DomainLength);
            }
            let len: usize = b[1] as usize;
            if len == 0 {
                return SocksStep::Invalid(SocksError::InvalidDomainLength);
            }
            if n < 2 + len {
                return SocksStep::Need(2 + len - n, Reading::Domain);
            }
            let name = text::slice_of(b, 2, 2 + len);
            match text::decode(name.as_slice()) {
                Err(e) => SocksStep::Invalid(SocksError::InvalidDomainName(e)),
                Ok(addr) => {
                    if n < 4 + len {
                        SocksStep::Need(4 + len - n, Reading::Port)
                    } else {
                        let port: u16 = number::read_be16(b[2 + len], b[3 + len]);
                        SocksStep::Done(SocksAddr { addr, port })
                    }
                },
            }
        },
        t => SocksStep::Invalid(SocksError::UnsupportedType(t)),
    }
}

/// What it means that the stream ended while a part was read. An end before
/// the first byte reads as an address type of zero.
pub fn read_ended(reading: Reading, message: String) -> (e: SocksError)
    ensures
        (match reading {
            Reading::AddressType => e matches SocksError::UnsupportedType(t) && t == 0,
            _ => e matches SocksError::Failed(r, m) && r == reading && m@ == message@,
        }),
{
    match reading {
        Reading::AddressType => SocksError::UnsupportedType(0),
        _ => SocksError::Failed(reading, message),
    }
}

/// The name of a part in messages.
pub open spec fn reading_name(r: Reading) -> Seq<char> {
    match r {
        Reading::AddressType => "address type"@,
        Reading::Ipv4 => "IPv4"@,
        Reading::DomainLength => "domain length"@,
        Reading::Domain => "domain"@,
        Reading::Ipv6 => "IPv6"@,
        Reading::Port => "port"@,
    }
}

/// The text of an error.
pub open spec fn socks_message(e: SocksError) -> Seq<char> {
    match e {
        SocksError::Failed(r, m) => "Failed to read "@ + reading_name(r) + ": "@ + m@,
        SocksError::UnsupportedType(t) => "Unsupported address type: 0x"@ + seq![
            net::hex_char((t / 16) as nat),
            net::hex_char((t % 16) as nat),
        ],
        SocksError::InvalidDomainLength => "Invalid domain length"@,
        SocksError::InvalidDomainName(m) => "Invalid domain name: "@ + m@,
    }
}

impl SocksError {
    /// The text of the error.
    pub fn message(&self) -> (s: String)
        ensures
            s@ == socks_message(*self),
    {
        match self {
            SocksError::Failed(r, m) => {
                let name = match r {
                    Reading::AddressType => "address type",
                    Reading::Ipv4 => "IPv4",
                    Reading::DomainLength => "domain length",
                    Reading::Domain => "domain",
                    Reading::Ipv6 => "IPv6",
                    Reading::Port => "port",
                };
                "Failed to read ".to_owned().concat(name).concat(": ").concat(m.as_str())
            },
            SocksError::UnsupportedType(t) => {
                let mut s = "Unsupported address type: 0x".to_owned();
                let ghost start = s@;
                s.push(hex_digit_char(*t / 16));
                s.push(hex_digit_char(*t % 16));
                assert(s@ =~= start + seq![
                    net::hex_char((*t / 16) as nat),
                    net::hex_char((*t % 16) as nat),
                ]);
                s
            },
            SocksError::InvalidDomainLength => "Invalid domain length".to_owned(),
            SocksError::InvalidDomainName(m) => "Invalid domain name: ".to_owned().concat(
                m.as_str(),
            ),
        }
    }
}

fn hex_digit_char(d: u8) -> (c: char)
    requires
        d < 16,
    ensures
        c == net::hex_char(d as nat),
{
    if d < 10 {
        (48 + d) as char
    } else {
        (97 + (d - 10)) as char
    }
}

/// Carries streams to their destinations over TCP.
#[derive(Clone, Copy, Debug, PartialEq, Eq, Structural)]
pub struct TcpProxyHandler {}

impl Default for TcpProxyHandler {
    fn default() -> (h: TcpProxyHandler)
        ensures
            h == (TcpProxyHandler {  }),
    {
        TcpProxyHandler {  }
    }
}

impl TcpProxyHandler {
    /// A new handler.
    pub fn new() -> (h: TcpProxyHandler)
        ensures
            h == (TcpProxyHandler {  }),
    {
        TcpProxyHandler {  }
    }
}

/// How a stream is served.
#[derive(Clone, Debug)]
pub enum Route {
    /// As datagrams, after the frame was written if there is one.
    Udp(Option<Frame>),
    /// As a TCP connection.
    Tcp,
}

/// A frame that acknowledges a stream, for peers that know acknowledgements.
pub open spec fn acknowledgement(stream_id: u32, peer_version: u8, f: Option<Frame>) -> bool {
    if peer_version >= 2 {
        f matches Some(frame) && frame@ == protocol::control(Command::SynAck, stream_id)
    } else {
        f is None
    }
}

/// Decides how a new stream is served.
pub trait StreamHandler {
    /// Handles a new stream with its destination.
    fn handle_stream(&self, stream_id: u32, peer_version: u8, destination: &SocksAddr) -> (r:
        Route);
}

impl StreamHandler for TcpProxyHandler {
    fn handle_stream(&self, stream_id: u32, peer_version: u8, destination: &SocksAddr) -> (r: Route)
        ensures
            text::has_substring(destination.addr@, "udp-over-tcp.arpa"@) ==> (r matches Route::Udp(f)
                && acknowledgement(stream_id, peer_version, f)),
            !text::has_substring(destination.addr@, "udp-over-tcp.arpa"@) ==> r is Tcp,
    {
        if text::contains(destination.addr.as_str(), "udp-over-tcp.arpa") {
            if peer_version >= 2 {
                Route::Udp(Some(Frame::control(Command::SynAck, stream_id)))
            } else {
                Route::Udp(None)
            }
        } else {
            Route::Tcp
        }
    }
}

/// Where a destination is: an address that can be dialed, or a name that has to
/// be resolved first.
#[derive(Clone, Debug)]
pub enum Target {
    Address(IpAddr, u16),
    Resolve(String, u16),
}

/// The target of a destination.
pub fn target_of(d: &SocksAddr) -> (t: Target)
    ensures
        (match net::ip(d.addr@) {
            Some(ip) => t == Target::Address(ip, d.port),
            None => t matches Target::Resolve(name, port) && name@ == d.addr@ && port == d.port,
        }),
{
    match net::parse_ip(d.addr.as_str()) {
        Some(ip) => Target::Address(ip, d.port),
        None => Target::Resolve(d.addr.clone(), d.port),
    }
}

/// A destination that was given as an address is dialed at that address and is never
/// resolved.
pub proof fn law_addresses_are_dialed(b: Seq<u8>, step: SocksStep)
    requires
        socks_step(b, step),
    ensures
        step matches SocksStep::Done(d) ==> {
            &&& b[0] == 1 ==> net::ip(d.addr@) == Some(IpAddr::V4(v4_at(b, 1)))
            &&& b[0] == 4 ==> net::ip(d.addr@) == Some(
                IpAddr::V6(from_be(b.subrange(1, 17)) as u128),
            )
        },
{
    if let SocksStep::Done(_) = step {
        if b[0] == 1 {
            net_laws::law_dotted_addresses_are_read_back(v4_at(b, 1));
        } else if b[0] == 4 {
            net_laws::law_addresses_with_colons_are_read_back(from_be(b.subrange(1, 17)) as u128);
        }
    }
}

/// A destination as messages show it.
pub open spec fn display(d: SocksAddr) -> Seq<char> {
    d.addr@ + ":"@ + number::decimal(d.port as nat)
}

impl SocksAddr {
    /// The destination as messages show it.
    pub fn show(&self) -> (s: String)
        ensures
            s@ == display(*self),
    {
        self.addr.clone().concat(":").concat(number::to_decimal(self.port as u64).as_str())
    }
}

/// How long a connection may take, in seconds.
pub const CONNECT_TIMEOUT_SECS: u64 = 15;

/// How connecting to the target ended.
#[derive(Clone, Debug)]
pub enum ConnectOutcome {
    Connected,
    Failed(String),
    TimedOut,
}

/// The message for a connection that failed.
pub open spec fn connect_message(d: SocksAddr, o: ConnectOutcome) -> Seq<char> {
    match o {
        ConnectOutcome::Connected => Seq::empty(),
        ConnectOutcome::Failed(e) => "Failed to connect to "@ + display(d) + ": "@ + e@,
        ConnectOutcome::TimedOut => "Connection timeout ("@ + number::decimal(
            CONNECT_TIMEOUT_SECS as nat,
        ) + "s) to "@ + display(d),
    }
}

/// What follows from an attempt to connect: a frame for the peer, and the error
/// that ends the stream, if any.
pub struct ConnectStep {
    pub frame: Option<Frame>,
    pub error: Option<String>,
}

/// Answers the peer once the connection stands or failed. Where the connection
/// failed the stream ends, whether or not the frame can be written.
pub fn connect_finished(
    stream_id: u32,
    peer_version: u8,
    destination: &SocksAddr,
    outcome: ConnectOutcome,
) -> (r: ConnectStep)
    ensures
        (match outcome {
            ConnectOutcome::Connected => {
                &&& r.error is None
                &&& acknowledgement(stream_id, peer_version, r.frame)
            },
            _ => {
                let m = connect_message(*destination, outcome);
                &&& r.error matches Some(e)
                &&& e@ == m
                &&& if peer_version >= 2 {
                    r.frame matches Some(f) && f@ == (FrameView {
                        cmd: Command::SynAck,
                        stream_id,
                        data: encode_utf8(m),
                    })
                } else {
                    r.frame is None
                }
            },
        }),
{
    let message = match outcome {
        ConnectOutcome::Connected => {
            let frame = if peer_version >= 2 {
                Some(Frame::control(Command::SynAck, stream_id))
            } else {
                None
            };
            return ConnectStep { frame, error: None };
        },
        ConnectOutcome::Failed(e) => "Failed to connect to ".to_owned().concat(
            destination.show().as_str(),
        ).concat(": ").concat(e.as_str()),
        ConnectOutcome::TimedOut => "Connection timeout (".to_owned().concat(
            number::to_decimal(CONNECT_TIMEOUT_SECS).as_str(),
        ).concat("s) to ").concat(destination.show().as_str()),
    };
    let frame = if peer_version >= 2 {
        Some(Frame::with_data(Command::SynAck, stream_id, text::bytes_of(message.as_str())))
    } else {
        None
    };
    ConnectStep { frame, error: Some(message) }
}

/// Which way bytes go.
#[derive(Clone, Copy, Debug, PartialEq, Eq, Structural)]
pub enum Direction {
    ToOutbound,
    ToClient,
}

/// What happened to one direction.
#[derive(Clone, Debug)]
pub enum ForwardEvent {
    /// Bytes were read; none at the end.
    Read(Vec<u8>),
    ReadFailed,
    /// So many bytes were written.
    Written(u64),
    WriteFailed,
}

/// What one direction does next.
#[derive(Clone, Debug)]
pub enum ForwardStep {
    Write(Vec<u8>),
    Read,
    /// This direction is finished: both are torn down.
    TearDown,
}

/// The state of a forwarded connection.
#[derive(Clone, Copy, Debug, PartialEq, Eq, Structural)]
pub struct Forwarding {
    pub to_outbound: u64,
    pub to_client: u64,
    pub finished: bool,
}

/// A sum of 64 bits that wraps around.
pub open spec fn wrapping_sum(a: u64, b: u64) -> u64 {
    if a + b > u64::MAX {
        (a + b - 0x1_0000_0000_0000_0000) as u64
    } else {
        (a + b) as u64
    }
}

/// What a turn of one direction does. As soon as either direction ends, both do.
pub open spec fn forwarded(
    before: Forwarding,
    direction: Direction,
    event: ForwardEvent,
    after: Forwarding,
    step: ForwardStep,
) -> bool {
    &&& before.finished ==> step is TearDown && after == before
    &&& !before.finished ==> (match event {
        ForwardEvent::Read(b) if b@.len() > 0 => step matches ForwardStep::Write(w) && w@ == b@
            && after == before,
        ForwardEvent::Written(n) => {
            &&& step is Read
            &&& !after.finished
            &&& after.to_outbound == (if direction is ToOutbound {
                wrapping_sum(before.to_outbound, n)
            } else {
                before.to_outbound
            })
            &&& after.to_client == (if direction is ToClient {
                wrapping_sum(before.to_client, n)
            } else {
                before.to_client
            })
        },
        _ => step is TearDown && after == (Forwarding { finished: true, ..before }),
    })
}

impl Forwarding {
    /// A connection over which nothing was forwarded yet.
    pub fn new() -> (f: Forwarding)
        ensures
            f == (Forwarding { to_outbound: 0, to_client: 0, finished: false }),
    {
        Forwarding { to_outbound: 0, to_client: 0, finished: false }
    }

    /// One turn of one direction. As soon as either direction ends, both do.
    pub fn step(&mut self, direction: Direction, event: ForwardEvent) -> (step: ForwardStep)
        ensures
            forwarded(*old(self), direction, event, *final(self), step),
    {
        if self.finished {
            return ForwardStep::TearDown;
        }
        match event {
            ForwardEvent::Read(b) => {
                if b.len() > 0 {
                    ForwardStep::Write(b)
                } else {
                    self.finished = true;
                    ForwardStep::TearDown
                }
            },
            ForwardEvent::Written(n) => {
                match direction {
                    Direction::ToOutbound => {
                        self.to_outbound = self.to_outbound.wrapping_add(n);
                    },
                    Direction::ToClient => {
                        self.to_client = self.to_client.wrapping_add(n);
                    },
                }
                ForwardStep::Read
            },
            ForwardEvent::ReadFailed | ForwardEvent::WriteFailed => {
                self.finished = true;
                ForwardStep::TearDown
            },
        }
    }
}

} // verus!
