//! Frames: the unit of an AnyTLS connection.
//!
//! A frame is written as a command byte, the stream number in four bytes, the
//! length of its data in two bytes, all in network order, and the data.

use crate::anytls::buf;
use crate::number;
use bytes::BytesMut;
use vstd::prelude::*;

verus! {

/// The bytes before a frame's data.
pub const HEADER_OVERHEAD_SIZE: usize = 7;

/// What a frame asks its receiver to do.
#[derive(Clone, Copy, Debug, PartialEq, Eq, Structural)]
pub enum Command {
    Waste,
    Syn,
    Push,
    Fin,
    Settings,
    Alert,
    UpdatePaddingScheme,
    SynAck,
    HeartRequest,
    HeartResponse,
    ServerSettings,
    /// A command that this version does not know.
    Other(u8),
}

/// The byte of a command on the wire.
pub open spec fn code(c: Command) -> u8 {
    match c {
        Command::Waste => 0,
        Command::Syn => 1,
        Command::Push => 2,
        Command::Fin => 3,
        Command::Settings => 4,
        Command::Alert => 5,
        Command::UpdatePaddingScheme => 6,
        Command::SynAck => 7,
        Command::HeartRequest => 8,
        Command::HeartResponse => 9,
        Command::ServerSettings => 10,
        Command::Other(b) => b,
    }
}

/// The command that a byte stands for.
pub open spec fn command_of(b: u8) -> Command {
    match b {
        0 => Command::Waste,
        1 => Command::Syn,
        2 => Command::Push,
        3 => Command::Fin,
        4 => Command::Settings,
        5 => Command::Alert,
        6 => Command::UpdatePaddingScheme,
        7 => Command::SynAck,
        8 => Command::HeartRequest,
        9 => Command::HeartResponse,
        10 => Command::ServerSettings,
        _ => Command::Other(b),
    }
}

impl Command {
    /// The byte of this command on the wire.
    pub fn to_byte(self) -> (b: u8)
        ensures
            b == code(self),
    {
        match self {
            Command::Waste => 0,
            Command::Syn => 1,
            Command::Push => 2,
            Command::Fin => 3,
            Command::Settings => 4,
            Command::Alert => 5,
            Command::UpdatePaddingScheme => 6,
            Command::SynAck => 7,
            Command::HeartRequest => 8,
            Command::HeartResponse => 9,
            Command::ServerSettings => 10,
            Command::Other(b) => b,
        }
    }

    /// The command that a byte stands for.
    pub fn from_byte(b: u8) -> (c: Command)
        ensures
            c == command_of(b),
    {
        match b {
            0 => Command::Waste,
            1 => Command::Syn,
            2 => Command::Push,
            3 => Command::Fin,
            4 => Command::Settings,
            5 => Command::Alert,
            6 => Command::UpdatePaddingScheme,
            7 => Command::SynAck,
            8 => Command::HeartRequest,
            9 => Command::HeartResponse,
            10 => Command::ServerSettings,
            _ => Command::Other(b),
        }
    }
}

/// One frame.
#[derive(Clone, Debug)]
pub struct Frame {
    pub cmd: Command,
    pub stream_id: u32,
    pub data: Vec<u8>,
}

/// A frame with its data as a sequence.
pub struct FrameView {
    pub cmd: Command,
    pub stream_id: u32,
    pub data: Seq<u8>,
}

impl View for Frame {
    type V = FrameView;

    open spec fn view(&self) -> FrameView {
        FrameView { cmd: self.cmd, stream_id: self.stream_id, data: self.data@ }
    }
}

/// A frame without data.
pub open spec fn control(cmd: Command, stream_id: u32) -> FrameView {
    FrameView { cmd, stream_id, data: Seq::empty() }
}

impl Frame {
    /// A frame without data.
    pub fn control(cmd: Command, stream_id: u32) -> (f: Frame)
        ensures
            f@ == control(cmd, stream_id),
    {
        Frame { cmd, stream_id, data: Vec::new() }
    }

    /// A frame with data.
    pub fn with_data(cmd: Command, stream_id: u32, data: Vec<u8>) -> (f: Frame)
        ensures
            f@ == (FrameView { cmd, stream_id, data: data@ }),
    {
        Frame { cmd, stream_id, data }
    }

    /// The frame that carries bytes of a stream.
    pub fn data(stream_id: u32, data: Vec<u8>) -> (f: Frame)
        ensures
            f@ == (FrameView { cmd: Command::Push, stream_id, data: data@ }),
    {
        Frame { cmd: Command::Push, stream_id, data }
    }

    /// Writes the frame, or gives nothing where the data is longer than the
    /// length field can say.
    pub fn encode(&self) -> (r: Option<Vec<u8>>)
        ensures
            r is Some <==> encodable(self@),
            r matches Some(v) ==> v@ == encoded(self@),
    {
        if self.data.len() > 65535 {
            return None;
        }
        let mut b = BytesMut::new();
        buf::put_u8(&mut b, self.cmd.to_byte());
        buf::put_u32(&mut b, self.stream_id);
        buf::put_u16(&mut b, self.data.len() as u16);
        b.extend_from_slice(self.data.as_slice());
        proof {
            assert(buf::contents(b) =~= encoded(self@));
        }
        Some(buf::to_vec(&b))
    }
}

/// Whether the length field can hold the length of the frame's data.
pub open spec fn encodable(f: FrameView) -> bool {
    f.data.len() <= 65535
}

/// The bytes of a frame.
pub open spec fn encoded(f: FrameView) -> Seq<u8> {
    seq![code(f.cmd)] + number::be32(f.stream_id) + number::be16(f.data.len() as u16) + f.data
}

/// The number that four bytes in network order denote.
pub open spec fn from_be32(a: u8, b: u8, c: u8, d: u8) -> u32 {
    (a * 0x100_0000 + b * 0x1_0000 + c * 0x100 + d) as u32
}

/// The length of the frame at the start of the bytes, once all of it is there.
pub open spec fn first_len(bytes: Seq<u8>) -> Option<int> {
    if bytes.len() < 7 {
        None
    } else {
        let n = 7 + number::from_be16(bytes[5], bytes[6]);
        if bytes.len() < n {
            None
        } else {
            Some(n as int)
        }
    }
}

/// The frame at the start of the bytes.
pub open spec fn first_frame(bytes: Seq<u8>) -> FrameView
    recommends
        first_len(bytes) is Some,
{
    FrameView {
        cmd: command_of(bytes[0]),
        stream_id: from_be32(bytes[1], bytes[2], bytes[3], bytes[4]),
        data: bytes.subrange(7, first_len(bytes)->0),
    }
}

/// The complete frames at the start of the bytes, in order.
pub open spec fn frames(bytes: Seq<u8>) -> Seq<FrameView>
    decreases bytes.len(),
{
    match first_len(bytes) {
        None => Seq::empty(),
        Some(n) => if 0 < n <= bytes.len() {
            seq![first_frame(bytes)] + frames(bytes.skip(n))
        } else {
            Seq::empty()
        },
    }
}

/// What is left after the complete frames.
pub open spec fn leftover(bytes: Seq<u8>) -> Seq<u8>
    decreases bytes.len(),
{
    match first_len(bytes) {
        None => bytes,
        Some(n) => if 0 < n <= bytes.len() {
            leftover(bytes.skip(n))
        } else {
            bytes
        },
    }
}

/// The bytes of a list of frames, one after another.
pub open spec fn encoded_all(fs: Seq<FrameView>) -> Seq<u8>
    decreases fs.len(),
{
    if fs.len() == 0 {
        Seq::empty()
    } else {
        encoded(fs[0]) + encoded_all(fs.skip(1))
    }
}

/// A command that has a byte of its own.
pub open spec fn canonical(c: Command) -> bool {
    command_of(code(c)) == c
}

proof fn lemma_be32_round_trip(n: u32)
    ensures
        number::be32(n).len() == 4,
        from_be32(number::be32(n)[0], number::be32(n)[1], number::be32(n)[2], number::be32(n)[3]) == n,
{
    let a = n / 0x100_0000;
    let b = n / 0x1_0000 % 256;
    let c = n / 0x100 % 256;
    let d = n % 256;
    assert(a < 256 && a * 0x100_0000 + b * 0x1_0000 + c * 0x100 + d == n) by (bit_vector)
        requires
            a == n / 0x100_0000u32,
            b == n / 0x1_0000u32 % 256u32,
            c == n / 0x100u32 % 256u32,
            d == n % 256u32,
    ;
}

/// Reading what a frame was written as gives the frame back, and leaves what
/// stood behind it.
pub proof fn law_frame_round_trip(f: FrameView, tail: Seq<u8>)
    requires
        encodable(f),
        canonical(f.cmd),
    ensures
        first_len(encoded(f) + tail) == Some(encoded(f).len() as int),
        first_frame(encoded(f) + tail) == f,
        (encoded(f) + tail).skip(encoded(f).len() as int) == tail,
{
    let e = encoded(f);
    let bytes = e + tail;
    lemma_be32_round_trip(f.stream_id);
    let len = f.data.len() as u16;
    assert(len == f.data.len());
    assert(e.len() == 7 + f.data.len());
    assert(bytes[0] == code(f.cmd));
    assert(bytes[1] == number::be32(f.stream_id)[0]);
    assert(bytes[2] == number::be32(f.stream_id)[1]);
    assert(bytes[3] == number::be32(f.stream_id)[2]);
    assert(bytes[4] == number::be32(f.stream_id)[3]);
    assert(bytes[5] == number::be16(len)[0]);
    assert(bytes[6] == number::be16(len)[1]);
    assert(number::from_be16(bytes[5], bytes[6]) == len);
    assert(bytes.subrange(7, e.len() as int) =~= f.data);
    assert(bytes.skip(e.len() as int) =~= tail);
}

/// The bytes of a frame stand as the protocol has them: the number of the command, the
/// stream and the length of the data with the highest byte first, then the data. Each
/// command has its own number.
pub proof fn law_frames_have_their_layout(f: FrameView)
    requires
        encodable(f),
    ensures
        ({
            let e = encoded(f);
            &&& e.len() == 7 + f.data.len()
            &&& e[0] == code(f.cmd)
            &&& f.stream_id == e[1] * 0x100_0000 + e[2] * 0x1_0000 + e[3] * 0x100 + e[4]
            &&& f.data.len() == e[5] * 0x100 + e[6]
            &&& e.skip(7) == f.data
        }),
        code(Command::Waste) == 0 && code(Command::Syn) == 1 && code(Command::Push) == 2 && code(
            Command::Fin,
        ) == 3 && code(Command::Settings) == 4 && code(Command::Alert) == 5,
        code(Command::UpdatePaddingScheme) == 6 && code(Command::SynAck) == 7 && code(
            Command::HeartRequest,
        ) == 8 && code(Command::HeartResponse) == 9 && code(Command::ServerSettings) == 10,
        forall|b: u8| code(#[trigger] command_of(b)) == b,
        forall|b: u8| b > 10 ==> #[trigger] command_of(b) == Command::Other(b),
{
    let e = encoded(f);
    lemma_be32_round_trip(f.stream_id);
    assert(e[1] == number::be32(f.stream_id)[0]);
    assert(e[2] == number::be32(f.stream_id)[1]);
    assert(e[3] == number::be32(f.stream_id)[2]);
    assert(e[4] == number::be32(f.stream_id)[3]);
    let a = e[1] as int;
    let b = e[2] as int;
    let c = e[3] as int;
    let d = e[4] as int;
    assert(0 <= a * 0x100_0000 + b * 0x1_0000 + c * 0x100 + d <= u32::MAX);
    let len = f.data.len() as u16;
    number::law_be16_round_trip(len);
    assert(e[5] == number::be16(len)[0]);
    assert(e[6] == number::be16(len)[1]);
    assert(e.skip(7) =~= f.data);
}

/// Reading a list of frames gives the list back, followed by the frames of
/// what stood behind it.
pub proof fn law_frames_round_trip(fs: Seq<FrameView>, tail: Seq<u8>)
    requires
        forall|i: int| 0 <= i < fs.len() ==> encodable(#[trigger] fs[i]) && canonical(fs[i].cmd),
    ensures
        frames(encoded_all(fs) + tail) == fs + frames(tail),
        leftover(encoded_all(fs) + tail) == leftover(tail),
    decreases fs.len(),
{
    if fs.len() == 0 {
        assert(encoded_all(fs) + tail =~= tail);
        assert(fs + frames(tail) =~= frames(tail));
    } else {
        let rest = fs.skip(1);
        assert forall|i: int| 0 <= i < rest.len() implies encodable(#[trigger] rest[i])
            && canonical(rest[i].cmd) by {
            assert(rest[i] == fs[i + 1]);
        }
        law_frames_round_trip(rest, tail);
        let more = encoded_all(rest) + tail;
        assert(encoded_all(fs) + tail =~= encoded(fs[0]) + more);
        law_frame_round_trip(fs[0], more);
        assert(fs =~= seq![fs[0]] + rest);
        assert(seq![fs[0]] + (rest + frames(tail)) =~= fs + frames(tail));
    }
}

/// However the bytes of a connection are cut into pieces, the same frames are read:
/// those of the first piece, and then those of what it left with the second piece
/// behind it.
pub proof fn law_pieces_give_the_same_frames(first: Seq<u8>, second: Seq<u8>)
    ensures
        frames(first + second) == frames(first) + frames(leftover(first) + second),
        leftover(first + second) == leftover(leftover(first) + second),
    decreases first.len(),
{
    let all = first + second;
    match first_len(first) {
        None => {
            assert(frames(first) + frames(all) =~= frames(all));
        },
        Some(n) => {
            let rest = first.skip(n);
            assert(all.subrange(7, n) =~= first.subrange(7, n));
            assert(all.skip(n) =~= rest + second);
            law_pieces_give_the_same_frames(rest, second);
            let more = frames(leftover(rest) + second);
            assert(seq![first_frame(first)] + (frames(rest) + more) =~= (seq![first_frame(first)]
                + frames(rest)) + more);
        },
    }
}

/// What is left behind the complete frames holds no complete frame.
pub proof fn law_no_frame_is_left_behind(bytes: Seq<u8>)
    ensures
        frames(leftover(bytes)).len() == 0,
        leftover(leftover(bytes)) == leftover(bytes),
    decreases bytes.len(),
{
    if let Some(n) = first_len(bytes) {
        law_no_frame_is_left_behind(bytes.skip(n));
    }
}

/// Takes the complete frames off the front of the pending bytes.
pub fn decode(pending: &mut Vec<u8>) -> (out: Vec<Frame>)
    ensures
        out@.map_values(|f: Frame| f@) == frames(old(pending)@),
        final(pending)@ == leftover(old(pending)@),
{
    let mut out: Vec<Frame> = Vec::new();
    let mut at: usize = 0;
    let n: usize = pending.len();
    let ghost all = pending@;
    assert(all.skip(0) == all);
    let ghost view = |f: Frame| f@;
    assert(out@.map_values(view) =~= Seq::<FrameView>::empty());
    loop
        invariant
            pending@ == all,
            n == all.len(),
            at <= n,
            view == (|f: Frame| f@),
            frames(all) == out@.map_values(view) + frames(all.skip(at as int)),
            leftover(all) == leftover(all.skip(at as int)),
        ensures
            first_len(all.skip(at as int)) is None,
        decreases n - at,
    {
        let ghost here = all.skip(at as int);
        if n - at < 7 {
            break;
        }
        let len: usize = number::read_be16(pending[at + 5], pending[at + 6]) as usize;
        if n - at - 7 < len {
            break;
        }
        let cmd = Command::from_byte(pending[at]);
        let id: u32 = pending[at + 1] as u32 * 0x100_0000 + pending[at + 2] as u32 * 0x1_0000
            + pending[at + 3] as u32 * 0x100 + pending[at + 4] as u32;
        let mut data: Vec<u8> = Vec::new();
        let mut k: usize = 0;
        while k < len
            invariant
                k <= len,
                at + 7 + len <= n,
                pending@ == all,
                n == all.len(),
                data@ == all.subrange(at + 7, at + 7 + k),
            decreases len - k,
        {
            data.push(pending[at + 7 + k]);
            k += 1;
        }
        let f = Frame { cmd, stream_id: id, data };
        proof {
            assert(first_len(here) == Some(7 + len as int));
            assert(here.subrange(7, 7 + len as int) =~= data@);
            assert(f@ == first_frame(here));
            assert(here.skip(7 + len as int) =~= all.skip(at + 7 + len));
            let shown = out@.map_values(view);
            assert(out@.push(f).map_values(view) =~= shown.push(f@));
            assert(shown + (seq![f@] + frames(all.skip(at + 7 + len))) =~= shown.push(f@) + frames(
                all.skip(at + 7 + len),
            ));
        }
        out.push(f);
        at = at + 7 + len;
    }
    proof {
        assert(frames(all.skip(at as int)) =~= Seq::<FrameView>::empty());
        assert(out@.map_values(view) + Seq::<FrameView>::empty() =~= out@.map_values(view));
    }
    let rest = pending.split_off(at);
    *pending = rest;
    assert(pending@ =~= all.skip(at as int));
    out
}

} // verus!
