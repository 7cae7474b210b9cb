//! How a payload is cut and filled so that the records on the wire have the
//! sizes of a padding scheme.

use crate::anytls::buf;
use crate::anytls::protocol;
use crate::anytls::protocol::{Command, FrameView, HEADER_OVERHEAD_SIZE};
use bytes::BytesMut;
use vstd::prelude::*;

verus! {

/// One step of the plan for a packet.
#[derive(Clone, Copy, Debug, PartialEq, Eq, Structural)]
pub enum PadStep {
    /// Stop here if the payload is used up.
    Check,
    /// Write a record of this size.
    Size(u32),
}

/// Sizes are small enough that a buffer can hold a waste frame of each size.
pub open spec fn valid_steps(steps: Seq<PadStep>) -> bool {
    forall|i: int|
        0 <= i < steps.len() ==> (#[trigger] steps[i] matches PadStep::Size(n) ==> n + 7 <= isize::MAX)
}

/// The padding scheme of a session: its text, the digest of the text, and the
/// number of packets that are padded.
#[derive(Clone, Debug)]
pub struct Padding {
    pub raw_scheme: Vec<u8>,
    pub md5: String,
    pub stop: u32,
}

/// The bytes of a waste frame that carries `n` zeros.
pub open spec fn waste(n: nat) -> Seq<u8> {
    seq![protocol::code(Command::Waste)] + crate::number::be32(0) + crate::number::be16(n as u16)
        + Seq::new(n, |i: int| 0u8)
}

/// The waste frame behind a payload of `len` bytes in a record of `size`.
pub open spec fn filler(size: nat, len: nat) -> Seq<u8> {
    if size > len + 7 {
        waste((size - (len + 7)) as nat)
    } else {
        Seq::empty()
    }
}

/// The records for a payload: each step cuts off a record of its size, fills
/// the last piece of the payload up to its size, or is all waste.
pub open spec fn records(payload: Seq<u8>, steps: Seq<PadStep>) -> Seq<Seq<u8>>
    decreases steps.len(),
{
    if steps.len() == 0 {
        if payload.len() == 0 {
            Seq::empty()
        } else {
            seq![payload]
        }
    } else {
        let rest = steps.skip(1);
        match steps[0] {
            PadStep::Check => if payload.len() == 0 {
                Seq::empty()
            } else {
                records(payload, rest)
            },
            PadStep::Size(n) => if payload.len() > n {
                seq![payload.take(n as int)] + records(payload.skip(n as int), rest)
            } else if payload.len() > 0 {
                seq![payload + filler(n as nat, payload.len())] + records(Seq::empty(), rest)
            } else {
                seq![waste(n as nat)] + records(Seq::empty(), rest)
            },
        }
    }
}

/// Appends a waste frame with `n` zeros.
fn put_waste(b: &mut BytesMut, n: usize)
    requires
        buf::contents(*old(b)).len() + 7 + n <= isize::MAX,
    ensures
        buf::contents(*final(b)) == buf::contents(*old(b)) + waste(n as nat),
{
    let ghost before = buf::contents(*b);
    let zeros: Vec<u8> = vec![0u8; n];
    buf::put_u8(b, Command::Waste.to_byte());
    buf::put_u32(b, 0);
    #[verifier::truncate]
    let len: u16 = n as u16;
    buf::put_u16(b, len);
    b.extend_from_slice(zeros.as_slice());
    proof {
        assert(zeros@ =~= Seq::new(n as nat, |i: int| 0u8));
        assert(buf::contents(*b) =~= before + waste(n as nat));
    }
}

/// Cuts and fills a payload into the records that go on the wire.
pub fn pad(payload: &Vec<u8>, steps: &Vec<PadStep>) -> (out: Vec<Vec<u8>>)
    requires
        valid_steps(steps@),
    ensures
        out@.map_values(|r: Vec<u8>| r@) == records(payload@, steps@),
{
    let mut buffer = buf::from_slice(payload.as_slice());
    let mut out: Vec<Vec<u8>> = Vec::new();
    let ghost all = records(payload@, steps@);
    let ghost view = |r: Vec<u8>| r@;
    let mut i: usize = 0;
    let mut stopped = false;
    proof {
        assert(steps@.skip(0) == steps@);
        assert(out@.map_values(view) + all =~= all);
    }
    while i < steps.len() && !stopped
        invariant
            i <= steps@.len(),
            valid_steps(steps@),
            view == (|r: Vec<u8>| r@),
            !stopped ==> all == out@.map_values(view) + records(
                buf::contents(buffer),
                steps@.skip(i as int),
            ),
            stopped ==> buf::contents(buffer).len() == 0 && all == out@.map_values(view),
        decreases steps@.len() - i,
    {
        let ghost now = buf::contents(buffer);
        let ghost done = out@.map_values(view);
        let ghost rest = steps@.skip(i as int).skip(1);
        assert(rest == steps@.skip(i + 1));
        assert(steps@.skip(i as int)[0] == steps@[i as int]);
        let remain: usize = buffer.len();
        match steps[i] {
            PadStep::Check => {
                if remain == 0 {
                    stopped = true;
                    assert(done + Seq::<Seq<u8>>::empty() =~= done);
                }
            },
            PadStep::Size(n) => {
                let size: usize = n as usize;
                if remain > size {
                    let tail = buffer.split_off(size);
                    let record = buf::to_vec(&buffer);
                    assert(out@.push(record).map_values(view) =~= done.push(record@));
                    out.push(record);
                    buffer = tail;
                } else if remain > 0 {
                    let filling: usize = size.saturating_sub(remain + HEADER_OVERHEAD_SIZE);
                    if filling > 0 {
                        put_waste(&mut buffer, filling);
                    }
                    let record = buf::to_vec(&buffer);
                    assert(record@ =~= now + filler(n as nat, now.len()));
                    assert(out@.push(record).map_values(view) =~= done.push(record@));
                    out.push(record);
                    buffer.clear();
                } else {
                    let mut frame = BytesMut::new();
                    put_waste(&mut frame, size);
                    let record = buf::to_vec(&frame);
                    assert(record@ =~= waste(n as nat));
                    assert(now =~= Seq::<u8>::empty());
                    assert(out@.push(record).map_values(view) =~= done.push(record@));
                    out.push(record);
                }
                proof {
                    let tail = records(buf::contents(buffer), rest);
                    assert(done + (seq![out@.last()@] + tail) =~= done.push(out@.last()@) + tail);
                }
            },
        }
        i += 1;
    }
    if buffer.len() > 0 {
        let record = buf::to_vec(&buffer);
        assert(steps@.skip(i as int).len() == 0);
        assert(out@.push(record).map_values(view) =~= out@.map_values(view).push(record@));
        assert(out@.map_values(view) + seq![record@] =~= out@.map_values(view).push(record@));
        out.push(record);
    } else {
        assert(!stopped ==> records(buf::contents(buffer), steps@.skip(i as int)).len() == 0);
        assert(out@.map_values(view) + Seq::<Seq<u8>>::empty() =~= out@.map_values(view));
    }
    out
}

/// A waste frame with `n` zeros.
pub open spec fn waste_frame(n: nat) -> FrameView {
    FrameView { cmd: Command::Waste, stream_id: 0, data: Seq::new(n, |i: int| 0u8) }
}

/// Whether frames are all waste: on no stream, with nothing but zeros.
pub open spec fn only_waste(fs: Seq<FrameView>) -> bool {
    forall|i: int|
        0 <= i < fs.len() ==> #[trigger] fs[i] == waste_frame(fs[i].data.len())
}

/// Frames without those that are waste.
pub open spec fn without_waste(fs: Seq<FrameView>) -> Seq<FrameView>
    decreases fs.len(),
{
    if fs.len() == 0 {
        Seq::empty()
    } else if fs.last().cmd is Waste {
        without_waste(fs.drop_last())
    } else {
        without_waste(fs.drop_last()).push(fs.last())
    }
}

/// The waste frames that the plan puts behind a payload of `len` bytes.
pub open spec fn padding_frames(len: nat, steps: Seq<PadStep>) -> Seq<FrameView>
    decreases steps.len(),
{
    if steps.len() == 0 {
        Seq::empty()
    } else {
        let rest = steps.skip(1);
        match steps[0] {
            PadStep::Check => if len == 0 {
                Seq::empty()
            } else {
                padding_frames(len, rest)
            },
            PadStep::Size(n) => if len > n {
                padding_frames((len - n) as nat, rest)
            } else if len == 0 {
                seq![waste_frame(n as nat)] + padding_frames(0, rest)
            } else if n > len + 7 {
                seq![waste_frame((n - (len + 7)) as nat)] + padding_frames(0, rest)
            } else {
                padding_frames(0, rest)
            },
        }
    }
}

/// The records, one after another, are the whole payload followed by waste
/// frames: nothing of the payload is lost, changed or reordered.
pub proof fn law_records_carry_payload(payload: Seq<u8>, steps: Seq<PadStep>)
    ensures
        records(payload, steps).flatten() == payload + protocol::encoded_all(
            padding_frames(payload.len(), steps),
        ),
    decreases steps.len(),
{
    let fs = padding_frames(payload.len(), steps);
    let all = records(payload, steps);
    if steps.len() == 0 {
        assert(fs.len() == 0);
        if payload.len() > 0 {
            all.lemma_flatten_one_element();
        }
        assert(all.flatten() =~= payload + protocol::encoded_all(fs));
    } else {
        let rest = steps.skip(1);
        match steps[0] {
            PadStep::Check => {
                if payload.len() > 0 {
                    law_records_carry_payload(payload, rest);
                } else {
                    assert(all.flatten() =~= payload + protocol::encoded_all(fs));
                }
            },
            PadStep::Size(n) => {
                if payload.len() > n {
                    let tail = payload.skip(n as int);
                    law_records_carry_payload(tail, rest);
                    assert(all.drop_first() =~= records(tail, rest));
                    assert(payload =~= payload.take(n as int) + tail);
                    assert(all.flatten() =~= payload + protocol::encoded_all(fs));
                } else {
                    let none = Seq::<u8>::empty();
                    law_records_carry_payload(none, rest);
                    let more = padding_frames(0, rest);
                    assert(all.drop_first() =~= records(none, rest));
                    if payload.len() == 0 {
                        assert(fs.skip(1) =~= more);
                        assert(waste(n as nat) =~= protocol::encoded(waste_frame(n as nat)));
                    } else if n > payload.len() + 7 {
                        assert(fs.skip(1) =~= more);
                        let k = (n - (payload.len() + 7)) as nat;
                        assert(waste(k) =~= protocol::encoded(waste_frame(k)));
                    }
                    assert(all.flatten() =~= payload + protocol::encoded_all(fs));
                }
            },
        }
    }
}

/// The plan adds nothing but waste.
proof fn lemma_only_waste(len: nat, steps: Seq<PadStep>)
    ensures
        only_waste(padding_frames(len, steps)),
    decreases steps.len(),
{
    if steps.len() > 0 {
        let rest = steps.skip(1);
        lemma_only_waste(len, rest);
        lemma_only_waste(0, rest);
        if let PadStep::Size(n) = steps[0] {
            if len > n {
                lemma_only_waste((len - n) as nat, rest);
            } else if len == 0 {
                assert(waste_frame(n as nat).data.len() == n);
            } else if n > len + 7 {
                assert(waste_frame((n - (len + 7)) as nat).data.len() == n - (len + 7));
            }
        }
    }
}

proof fn lemma_waste_drops_out(fs: Seq<FrameView>, ws: Seq<FrameView>)
    requires
        only_waste(ws),
    ensures
        without_waste(fs + ws) == without_waste(fs),
    decreases ws.len(),
{
    if ws.len() == 0 {
        assert(fs + ws =~= fs);
    } else {
        let less = ws.drop_last();
        assert(only_waste(less)) by {
            assert forall|i: int| 0 <= i < less.len() implies #[trigger] less[i] == waste_frame(
                less[i].data.len(),
            ) by {
                assert(less[i] == ws[i]);
            }
        }
        lemma_waste_drops_out(fs, less);
        assert((fs + ws).drop_last() =~= fs + less);
        assert((fs + ws).last() == ws[ws.len() - 1]);
    }
}

proof fn lemma_padding_fits(len: nat, steps: Seq<PadStep>)
    requires
        forall|i: int|
            0 <= i < steps.len() ==> (#[trigger] steps[i] matches PadStep::Size(n) ==> n <= 65535),
    ensures
        forall|i: int|
            0 <= i < padding_frames(len, steps).len() ==> protocol::encodable(
                #[trigger] padding_frames(len, steps)[i],
            ),
    decreases steps.len(),
{
    if steps.len() > 0 {
        let rest = steps.skip(1);
        assert forall|i: int| 0 <= i < rest.len() implies (#[trigger] rest[i] matches PadStep::Size(
            n,
        ) ==> n <= 65535) by {
            assert(rest[i] == steps[i + 1]);
        }
        let all = padding_frames(len, steps);
        match steps[0] {
            PadStep::Check => {
                if len > 0 {
                    lemma_padding_fits(len, rest);
                    assert(all == padding_frames(len, rest));
                }
            },
            PadStep::Size(n) => {
                if len > n {
                    lemma_padding_fits((len - n) as nat, rest);
                    assert(all == padding_frames((len - n) as nat, rest));
                } else {
                    let more = padding_frames(0, rest);
                    lemma_padding_fits(0, rest);
                    assert forall|i: int| 0 <= i < all.len() implies protocol::encodable(
                        #[trigger] all[i],
                    ) by {
                        if all.len() == more.len() {
                            assert(all[i] == more[i]);
                        } else if i > 0 {
                            assert(all[i] == more[i - 1]);
                        } else {
                            assert(n <= 65535);
                        }
                    }
                }
            },
        }
    }
}

/// What the peer reads from the padded records of whole frames is those frames,
/// then only waste, and no bytes are left over. Without the waste it reads what
/// was to be sent.
pub proof fn law_padding_is_transparent(payload: Seq<u8>, steps: Seq<PadStep>)
    requires
        protocol::leftover(payload).len() == 0,
        forall|i: int|
            0 <= i < steps.len() ==> (#[trigger] steps[i] matches PadStep::Size(n) ==> n <= 65535),
    ensures
        ({
            let wire = records(payload, steps).flatten();
            let ws = padding_frames(payload.len(), steps);
            &&& wire == payload + protocol::encoded_all(ws)
            &&& protocol::frames(wire) == protocol::frames(payload) + ws
            &&& only_waste(ws)
            &&& without_waste(protocol::frames(wire)) == without_waste(protocol::frames(payload))
            &&& protocol::leftover(wire).len() == 0
        }),
{
    let ws = padding_frames(payload.len(), steps);
    let tail = protocol::encoded_all(ws);
    law_records_carry_payload(payload, steps);
    lemma_only_waste(payload.len(), steps);
    lemma_padding_fits(payload.len(), steps);
    let none = Seq::<u8>::empty();
    assert forall|i: int| 0 <= i < ws.len() implies protocol::encodable(#[trigger] ws[i])
        && protocol::canonical(ws[i].cmd) by {}
    protocol::law_frames_round_trip(ws, none);
    assert(tail + none =~= tail);
    assert(ws + protocol::frames(none) =~= ws);
    protocol::law_pieces_give_the_same_frames(payload, tail);
    assert(protocol::leftover(payload) + tail =~= tail);
    lemma_waste_drops_out(protocol::frames(payload), ws);
}

/// A record is as long as its step says: bytes that are more are cut there, and bytes
/// that are fewer are filled up where there is room for the head of a frame. Without
/// bytes the step says how much is wasted. A check ends the records where nothing is left.
pub proof fn law_records_are_as_long_as_asked(payload: Seq<u8>, n: u32, rest: Seq<PadStep>)
    ensures
        ({
            let r = records(payload, seq![PadStep::Size(n)] + rest);
            &&& r.len() > 0
            &&& payload.len() > n ==> r[0] == payload.take(n as int) && r.skip(1) == records(
                payload.skip(n as int),
                rest,
            )
            &&& 0 < payload.len() <= n ==> payload.is_prefix_of(r[0]) && r.skip(1) == records(
                Seq::empty(),
                rest,
            )
            &&& 0 < payload.len() && payload.len() + 7 < n ==> r[0].len() == n
            &&& 0 < payload.len() <= n && n <= payload.len() + 7 ==> r[0] == payload
            &&& payload.len() == 0 ==> r[0].len() == n + 7 && r.skip(1) == records(
                Seq::empty(),
                rest,
            )
        }),
        records(payload, seq![PadStep::Check] + rest) == (if payload.len() == 0 {
            Seq::empty()
        } else {
            records(payload, rest)
        }),
        payload.len() > 0 ==> records(payload, Seq::empty()) == seq![payload],
        payload.len() == 0 ==> records(payload, Seq::empty()).len() == 0,
{
    let steps = seq![PadStep::Size(n)] + rest;
    assert(steps.skip(1) =~= rest);
    assert((seq![PadStep::Check] + rest).skip(1) =~= rest);
    let r = records(payload, steps);
    if payload.len() > n {
        assert(r.skip(1) =~= records(payload.skip(n as int), rest));
    } else {
        assert(r.skip(1) =~= records(Seq::empty(), rest));
        if payload.len() > 0 {
            let f = payload + filler(n as nat, payload.len());
            assert(f.subrange(0, payload.len() as int) =~= payload);
            if n <= payload.len() + 7 {
                assert(f =~= payload);
            }
        }
    }
}

} // verus!
