//! What the two sides of a session owe each other.

use crate::anytls::protocol;
use crate::anytls::protocol::{Command, Frame, FrameView};
use crate::anytls::session;
use crate::anytls::session::{
    ActionView, ErrorView, HeartbeatState, HeartbeatStep, RecvEvent, RecvStep, SessionError,
    SessionView, StreamEventView, StreamStepView,
};
use crate::anytls::settings;
use crate::anytls::socks;
use crate::anytls::socks::{ConnectOutcome, ConnectStep, SocksAddr};
use crate::number;
use crate::text;
use crate::text_laws;
use vstd::prelude::*;
use vstd::string::*;
use vstd::utf8::*;

verus! {

/// The acknowledgement of a stream that a client opened tells the opener how it went:
/// empty data means that it worked, and any data is the reason why it did not. Either
/// way there is exactly one thing to do, the session stays as it is and goes on. An
/// acknowledgement of a stream that is not open, or that reaches a server, is nothing.
pub proof fn law_acknowledgements_tell_success_from_failure(
    s: SessionView,
    id: u32,
    data: Seq<u8>,
    now: u64,
)
    ensures
        ({
            let f = FrameView { cmd: Command::SynAck, stream_id: id, data };
            let done = session::frame_effect(s, f, now);
            let mine = s.is_client && s.streams.contains(id);
            &&& done.state == s
            &&& done.error is None
            &&& done.actions.len() == (if mine {
                1nat
            } else {
                0
            })
            &&& done.actions.contains(ActionView::Accepted { stream: id }) <==> mine && data.len()
                == 0
            &&& mine && data.len() > 0 ==> (done.actions[0] matches ActionView::Refused {
                stream,
                error: ErrorView::Protocol(m),
            } && stream == id && text::utf8_lossy(data).is_suffix_of(m) && m.len()
                == "Server error: "@.len() + text::utf8_lossy(data).len() && "Server error: "@.is_prefix_of(
                m,
            ))
        }),
{
    let f = FrameView { cmd: Command::SynAck, stream_id: id, data };
    let done = session::frame_effect(s, f, now);
    if s.is_client && s.streams.contains(id) {
        if data.len() == 0 {
            assert(done.actions[0] == ActionView::Accepted { stream: id });
        } else {
            let m = "Server error: "@ + text::utf8_lossy(data);
            assert(m.skip("Server error: "@.len() as int) =~= text::utf8_lossy(data));
            assert("Server error: "@.is_prefix_of(m));
            assert(m.subrange(m.len() - text::utf8_lossy(data).len(), m.len() as int)
                =~= text::utf8_lossy(data));
        }
    }
}

/// What a server answers once it has connected a stream, or has not, reaches the client
/// that opened the stream as just that: the stream is accepted where the connection
/// stands and refused where it failed or took too long. A peer that knows no
/// acknowledgements is sent none.
pub proof fn law_the_client_learns_how_the_connection_went(
    client: SessionView,
    id: u32,
    version: u8,
    destination: &SocksAddr,
    outcome: ConnectOutcome,
    r: ConnectStep,
    now: u64,
)
    requires
        call_ensures(socks::connect_finished, (id, version, destination, outcome), r),
        client.is_client,
        client.streams.contains(id),
    ensures
        r.error is None <==> outcome is Connected,
        r.frame is Some <==> version >= 2,
        r.frame matches Some(f) ==> ({
            let done = session::frame_effect(client, f@, now);
            &&& done.state == client
            &&& outcome is Connected ==> done.actions == seq![ActionView::Accepted { stream: id }]
            &&& !(outcome is Connected) ==> done.actions.len() == 1 && (
            done.actions[0] matches ActionView::Refused { stream, .. } && stream == id)
        }),
{
    broadcast use encode_utf8_decode_utf8;

    if let Some(f) = r.frame {
        if !(outcome is Connected) {
            let m = socks::connect_message(*destination, outcome);
            reveal_strlit("Failed to connect to ");
            reveal_strlit("Connection timeout (");
            assert(m.len() > 0);
            let e = encode_utf8(m);
            if e.len() == 0 {
                assert(decode_utf8(e) =~= Seq::<char>::empty());
            }
        }
    }
}

/// What a stream writes on one side is handed to the same stream on the other side, and
/// to no other, byte for byte. Neither session changes. A stream that the other side
/// does not know gets nothing.
pub proof fn law_bytes_reach_the_same_stream(
    from: SessionView,
    to: SessionView,
    id: u32,
    data: Seq<u8>,
    now: u64,
)
    requires
        !from.closed,
        data.len() > 0,
    ensures
        ({
            let sent = session::sending_effect(from, StreamEventView::Data { stream: id, data });
            &&& sent.0 == from
            &&& sent.1 matches StreamStepView::Write(f)
            &&& session::frame_effect(to, f, now).state == to
            &&& session::frame_effect(to, f, now).error is None
            &&& to.receivers.contains(id) ==> session::frame_effect(to, f, now).actions == seq![
                ActionView::Deliver { stream: id, data },
            ]
            &&& !to.receivers.contains(id) ==> session::frame_effect(to, f, now).actions.len() == 0
        }),
{
}

proof fn lemma_gone(ids: Seq<u32>, id: u32, x: u32)
    ensures
        session::without_id(ids, id).contains(x) <==> ids.contains(x) && x != id,
{
    let gone = seq![id];
    let keep = |y: u32| !gone.contains(y);
    assert(gone[0] == id);
    ids.filter_lemma(keep);
    let f = ids.filter(keep);
    if f.contains(x) {
        ids.lemma_filter_contains_rev(keep, x);
        let i = choose|i: int| 0 <= i < f.len() && f[i] == x;
        assert(keep(f[i]));
    }
    if ids.contains(x) && x != id {
        let i = choose|i: int| 0 <= i < ids.len() && ids[i] == x;
        assert(keep(ids[i]));
        assert(f.contains(ids[i]));
    }
}

/// A stream that one side ends is ended on both: neither side knows it any more, every
/// other stream stays, nothing is to be done and nothing fails.
pub proof fn law_an_end_ends_the_stream_on_both_sides(
    from: SessionView,
    to: SessionView,
    id: u32,
    x: u32,
    now: u64,
)
    requires
        !from.closed,
    ensures
        ({
            let none = Seq::<u8>::empty();
            let sent = session::sending_effect(
                from,
                StreamEventView::Data { stream: id, data: none },
            );
            &&& sent.0.streams.contains(x) <==> from.streams.contains(x) && x != id
            &&& sent.0.receivers.contains(x) <==> from.receivers.contains(x) && x != id
            &&& sent.1 matches StreamStepView::TryWrite(f)
            &&& ({
                let done = session::frame_effect(to, f, now);
                &&& done.state.streams.contains(x) <==> to.streams.contains(x) && x != id
                &&& done.state.receivers.contains(x) <==> to.receivers.contains(x) && x != id
                &&& done.actions.len() == 0
                &&& done.error is None
                &&& done.state.closed == to.closed
            })
        }),
{
    lemma_gone(from.streams, id, x);
    lemma_gone(from.receivers, id, x);
    lemma_gone(to.streams, id, x);
    lemma_gone(to.receivers, id, x);
}

/// Opening a stream gives it the next number, and a number of its own from the one that
/// is opened next. The client knows it from then on, and so does the server once the
/// frame is there: it makes the stream, and announces it where it was asked to. A closed
/// session opens none.
pub proof fn law_opened_streams_are_known_on_both_sides(
    client: SessionView,
    after: SessionView,
    r: Result<(u32, Frame), SessionError>,
    server: SessionView,
    x: u32,
    now: u64,
)
    requires
        session::opened(client, after, r),
        !server.is_client,
    ensures
        r is Ok <==> !client.closed,
        r is Err ==> after == client,
        r matches Ok((id, f)) ==> ({
            let done = session::frame_effect(server, f@, now);
            &&& id == client.next_stream
            &&& after.next_stream != id
            &&& id < u32::MAX ==> after.next_stream == id + 1
            &&& after.streams.contains(x) <==> client.streams.contains(x) || x == id
            &&& after.receivers.contains(x) <==> client.receivers.contains(x) || x == id
            &&& after.closed == client.closed
            &&& done.state.streams.contains(x) <==> server.streams.contains(x) || x == id
            &&& done.state.receivers.contains(x) <==> server.receivers.contains(x) || x == id
            &&& done.actions == seq![
                ActionView::OpenStream { stream: id, announce: server.announces },
            ]
            &&& done.error is None
        }),
{
    if let Ok((id, f)) = r {
        lemma_known(client.streams, id, x);
        lemma_known(client.receivers, id, x);
        lemma_known(server.streams, id, x);
        lemma_known(server.receivers, id, x);
    }
}

proof fn lemma_known(ids: Seq<u32>, id: u32, x: u32)
    ensures
        session::with_id(ids, id).contains(x) <==> ids.contains(x) || x == id,
{
    let more = ids.push(id);
    assert(more[ids.len() as int] == id);
    if ids.contains(x) {
        let i = choose|i: int| 0 <= i < ids.len() && ids[i] == x;
        assert(more[i] == x);
    }
}

/// A client closes a session over its heartbeat exactly where its peer was silent for
/// longer than it may be. Until then it asks, and the answer that its peer gives to the
/// question starts the time anew. A closed session, or one without a heartbeat, asks
/// nothing.
pub proof fn law_silence_closes_a_session_and_answers_keep_it(
    s: SessionView,
    now: u64,
    step: HeartbeatStep,
    peer: SessionView,
    heard: u64,
    later: u64,
    next: HeartbeatStep,
)
    requires
        session::ticked(s, now, step),
    ensures
        step is Close <==> !s.closed && (s.heartbeat matches Some(h) && now > h.last_received
            + h.timeout),
        step is Exit <==> s.closed || s.heartbeat is None,
        step matches HeartbeatStep::Ask(f) ==> ({
            let asked = session::frame_effect(peer, f@, now);
            &&& asked.actions.len() == 1
            &&& asked.actions[0] matches ActionView::Write { frame: reply }
            &&& ({
                let kept = session::frame_effect(s, reply, heard).state;
                &&& kept.heartbeat == Some(
                    HeartbeatState { last_received: heard, ..s.heartbeat->0 },
                )
                &&& session::ticked(kept, later, next) && later <= heard + s.heartbeat->0.timeout
                    ==> next is Ask
            })
        }),
{
}

/// Closing tells those that wait first and shuts the connection down last. Between the
/// two, each open stream is closed and its opener is told, in the order of opening.
pub proof fn law_closing_keeps_its_order(s: SessionView, i: int)
    requires
        !s.closed,
        0 <= i < s.streams.len(),
    ensures
        ({
            let a = session::close_effect(s).actions;
            &&& a.len() == 2 * s.streams.len() + 2
            &&& a[0] is NotifyClosed
            &&& a.last() is ShutdownWriter
            &&& a[2 * i + 1] == (ActionView::CloseStream {
                stream: s.streams[i],
                error: ErrorView::SessionClosed,
            })
            &&& a[2 * i + 2] == (ActionView::Refused {
                stream: s.streams[i],
                error: ErrorView::SessionClosed,
            })
        }),
{
    lemma_endings_in_order(s.streams, i);
    let m = session::endings(s.streams);
    let a = session::close_effect(s).actions;
    assert(a[2 * i + 1] == m[2 * i]);
    assert(a[2 * i + 2] == m[2 * i + 1]);
}

proof fn lemma_endings_in_order(ids: Seq<u32>, i: int)
    requires
        0 <= i < ids.len(),
    ensures
        session::endings(ids).len() == 2 * ids.len(),
        session::endings(ids)[2 * i] == (ActionView::CloseStream {
            stream: ids[i],
            error: ErrorView::SessionClosed,
        }),
        session::endings(ids)[2 * i + 1] == (ActionView::Refused {
            stream: ids[i],
            error: ErrorView::SessionClosed,
        }),
    decreases ids.len(),
{
    let r = ids.drop_last();
    if ids.len() > 1 {
        lemma_endings_in_order(r, 0);
        if i < r.len() {
            lemma_endings_in_order(r, i);
            assert(r[i] == ids[i]);
        }
    } else {
        assert(session::endings(r).len() == 0);
    }
}

/// An alert ends every stream that is open, each with an error that ends in what the
/// alert says, and ends the loop with an error that ends in it too. An alert that says
/// nothing is told as unknown.
pub proof fn law_alerts_are_passed_on(s: SessionView, id: u32, data: Seq<u8>, now: u64, i: int)
    requires
        0 <= i < s.streams.len(),
    ensures
        ({
            let f = FrameView { cmd: Command::Alert, stream_id: id, data };
            let done = session::frame_effect(s, f, now);
            let says = if data.len() == 0 {
                "Unknown alert"@
            } else {
                text::utf8_lossy(data)
            };
            &&& done.state == (SessionView { closed: true, streams: Seq::empty(), ..s })
            &&& done.actions.len() == s.streams.len()
            &&& done.actions[i] matches ActionView::CloseStream {
                stream,
                error: ErrorView::Protocol(m),
            }
            &&& stream == s.streams[i]
            &&& says.is_suffix_of(m)
            &&& done.error matches Some(ErrorView::Protocol(t))
            &&& says.is_suffix_of(t)
            &&& t.len() > says.len()
        }),
{
    let says = if data.len() == 0 {
        "Unknown alert"@
    } else {
        text::utf8_lossy(data)
    };
    reveal_strlit("Session closed due to alert: ");
    reveal_strlit("Alert: ");
    let m = "Session closed due to alert: "@ + says;
    let t = "Alert: "@ + says;
    assert(m.subrange(m.len() - says.len(), m.len() as int) =~= says);
    assert(t.subrange(t.len() - says.len(), t.len() as int) =~= says);
}

/// Waste and commands that are not known change nothing and ask for nothing.
pub proof fn law_waste_does_nothing(s: SessionView, f: FrameView, now: u64)
    requires
        f.cmd is Waste || f.cmd is Other,
    ensures
        session::frame_effect(s, f, now).state == s,
        session::frame_effect(s, f, now).actions.len() == 0,
        session::frame_effect(s, f, now).error is None,
{
}

/// A padding scheme that a server sends is handed to the client as it came; one without
/// bytes is passed over.
pub proof fn law_schemes_are_handed_on(s: SessionView, id: u32, data: Seq<u8>, now: u64)
    requires
        s.is_client,
    ensures
        ({
            let f = FrameView { cmd: Command::UpdatePaddingScheme, stream_id: id, data };
            let done = session::frame_effect(s, f, now);
            &&& done.state == s
            &&& done.error is None
            &&& data.len() > 0 ==> done.actions == seq![ActionView::AdoptScheme { raw: data }]
            &&& data.len() == 0 ==> done.actions.len() == 0
        }),
{
}

/// What is read is neither lost nor handled twice: where the bytes that were left and
/// those that came make whole frames and a piece of another, the frames are handled in
/// order and the piece is left.
pub proof fn law_whole_frames_are_handled(
    before: SessionView,
    pending: Seq<u8>,
    bytes: Vec<u8>,
    after: SessionView,
    rest: Seq<u8>,
    step: RecvStep,
    fs: Seq<FrameView>,
    piece: Seq<u8>,
)
    requires
        session::received(before, pending, RecvEvent::Read(bytes), after, rest, step),
        bytes@.len() > 0,
        pending + bytes@ == protocol::encoded_all(fs) + piece,
        forall|i: int|
            0 <= i < fs.len() ==> protocol::encodable(#[trigger] fs[i]) && protocol::canonical(
                fs[i].cmd,
            ),
        protocol::first_len(piece) is None,
    ensures
        step matches RecvStep::Handle(got) && session::frame_views(got@) == fs,
        rest == piece,
        after == before,
{
    protocol::law_frames_round_trip(fs, piece);
    assert(fs + protocol::frames(piece) =~= fs);
}

/// The receive loop ends with the connection and not before, and the session is closed
/// then. It ends with an error exactly where the connection failed otherwise than by
/// ending: without a word of closing, or in the middle of a record.
pub proof fn law_the_loop_ends_with_the_connection(
    before: SessionView,
    pending: Seq<u8>,
    event: RecvEvent,
    after: SessionView,
    rest: Seq<u8>,
    step: RecvStep,
)
    requires
        session::received(before, pending, event, after, rest, step),
    ensures
        step is Fail <==> (event matches RecvEvent::Failed { message, unexpected_eof }
            && !unexpected_eof && !text::has_substring(message@, "close_notify"@)
            && !text::has_substring(message@, "unexpected EOF"@)),
        step matches RecvStep::Fail(_, e) ==> (event matches RecvEvent::Failed { message, .. }
            && e@ == ErrorView::Io(message@)),
        step is Stop || step is Fail ==> after.closed,
        event is Failed || (event matches RecvEvent::Read(b) && b@.len() == 0) ==> step is Stop
            || step is Fail,
        event is Round ==> (step is Read <==> !before.closed),
        event matches RecvEvent::Read(b) ==> (b@.len() > 0 ==> step is Handle),
{
}

/// A frame is refused exactly where its data is longer than 65535 bytes, and then nothing
/// is sent and nothing changes. Whatever else is written leaves the session open as it
/// was, with the same streams.
pub proof fn law_only_frames_that_are_too_long_are_refused(
    before: SessionView,
    f: FrameView,
    steps: Seq<crate::anytls::padding::PadStep>,
    after: SessionView,
    r: Result<Vec<Vec<u8>>, SessionError>,
)
    requires
        session::write_result(before, f, steps, after, r),
    ensures
        r is Err <==> f.data.len() > 65535,
        r is Err ==> after == before,
        r matches Err(e) ==> e is FrameTooLarge,
        after.closed == before.closed,
        after.streams == before.streams,
        after.receivers == before.receivers,
        after.buffering == before.buffering,
        r is Ok && before.buffering ==> after.buffer == before.buffer + protocol::encoded(f)
            && after.packets == before.packets,
        r is Ok && !before.buffering ==> after.buffer.len() == 0,
        r is Ok && !before.buffering && before.send_padding && before.packets < u32::MAX
            ==> after.packets == before.packets + 1,
        !before.send_padding ==> after.packets == before.packets,
{
}

/// Settings of a client, as they are written.
spec fn greeting(s: SessionView) -> settings::Entries {
    seq![("v"@, "2"@), ("client"@, "anytls-rs/0.1.0"@), ("padding-md5"@, s.md5)]
}

proof fn lemma_greeting(s: SessionView)
    requires
        !s.md5.contains('\n'),
    ensures
        session::client_entries(s) == greeting(s),
        settings::writable(greeting(s)),
        settings::lookup(greeting(s), "v"@) == Some("2"@),
        settings::lookup(greeting(s), "client"@) == Some("anytls-rs/0.1.0"@),
        settings::lookup(greeting(s), "padding-md5"@) == Some(s.md5),
{
    reveal_strlit("v");
    reveal_strlit("2");
    reveal_strlit("client");
    reveal_strlit("anytls-rs/0.1.0");
    reveal_strlit("padding-md5");
    let none = Seq::<(Seq<char>, Seq<char>)>::empty();
    let one = none.push(("v"@, "2"@));
    let two = one.push(("client"@, "anytls-rs/0.1.0"@));
    let all = two.push(("padding-md5"@, s.md5));
    assert("v"@.len() == 1 && "client"@.len() == 6 && "padding-md5"@.len() == 11);
    assert(settings::put(none, "v"@, "2"@) == one);
    assert(!settings::has_key(one, "client"@));
    assert(!settings::has_key(two, "padding-md5"@));
    assert(all =~= greeting(s));
    assert(all.drop_last() =~= two);
    assert(two.drop_last() =~= one);
    assert(settings::lookup(one, "v"@) == Some("2"@));
    assert(settings::lookup(two, "v"@) == Some("2"@));
    assert(settings::lookup(two, "client"@) == Some("anytls-rs/0.1.0"@));
}

/// At the start of a session the server learns from the client's settings which version
/// it speaks and whether it knows the padding scheme. It answers with its own settings,
/// last of all, and sends its scheme, as it is, exactly where the client's digest is
/// another.
pub proof fn law_a_client_introduces_itself(client: SessionView, server: SessionView, now: u64)
    requires
        !server.is_client,
        !client.md5.contains('\n'),
        text::utf8_lossy(session::client_settings_frame(client).data) == decode_utf8(
            session::client_settings_frame(client).data,
        ),
    ensures
        ({
            let f = session::client_settings_frame(client);
            let done = session::frame_effect(server, f, now);
            let scheme = FrameView {
                cmd: Command::UpdatePaddingScheme,
                stream_id: 0,
                data: server.raw_scheme,
            };
            &&& f.cmd is Settings
            &&& f.stream_id == 0
            &&& done.state == server
            &&& done.error is None
            &&& done.actions.contains(ActionView::RememberVersion { version: 2 })
            &&& done.actions.contains(ActionView::Write { frame: scheme }) <==> server.md5
                != client.md5
            &&& done.actions.len() == (if server.md5 != client.md5 {
                3nat
            } else {
                2
            })
            &&& done.actions.last() matches ActionView::Write { frame }
            &&& frame.cmd is ServerSettings
        }),
{
    broadcast use encode_utf8_decode_utf8;

    let f = session::client_settings_frame(client);
    let e = session::client_entries(client);
    lemma_greeting(client);
    settings::law_settings_are_read_back(e);
    assert(session::settings_in(f.data) == e);
    assert(f.data.len() > 0) by {
        if f.data.len() == 0 {
            assert(decode_utf8(f.data) =~= Seq::<char>::empty());
            reveal_strlit("=");
            assert(settings::text_of(e).len() > 0);
        }
    }
    reveal_strlit("2");
    assert("2"@ =~= number::decimal(2));
    text_laws::law_only_digits_are_numbers("2"@, 2, 255);
    let done = session::frame_effect(server, f, now);
    let all = done.actions;
    let n = all.len() as int;
    assert(all[n - 2] == ActionView::RememberVersion { version: 2 });
    if server.md5 != client.md5 {
        assert(all[0] == ActionView::Write { frame: session::scheme_frame(server) });
    }
}

/// A client remembers the version that the server answers with: two, where the server
/// adds no settings of its own. Its settings reach the client whole.
pub proof fn law_a_server_introduces_itself(server: SessionView, client: SessionView, now: u64)
    requires
        client.is_client,
        server.server_settings is None,
        text::utf8_lossy(session::server_settings_frame(server).data) == decode_utf8(
            session::server_settings_frame(server).data,
        ),
    ensures
        ({
            let f = session::server_settings_frame(server);
            let done = session::frame_effect(client, f, now);
            &&& f.cmd is ServerSettings
            &&& f.stream_id == 0
            &&& done.state == (SessionView { peer_version: 2, ..client })
            &&& done.actions.len() == 0
            &&& done.error is None
        }),
{
    broadcast use encode_utf8_decode_utf8;

    let f = session::server_settings_frame(server);
    let e = session::server_entries(server);
    reveal_strlit("v");
    reveal_strlit("2");
    let none = Seq::<(Seq<char>, Seq<char>)>::empty();
    assert(e =~= seq![("v"@, "2"@)]);
    settings::law_settings_are_read_back(e);
    assert(f.data.len() > 0) by {
        if f.data.len() == 0 {
            assert(decode_utf8(f.data) =~= Seq::<char>::empty());
            assert(settings::text_of(e).len() > 0);
        }
    }
    assert("2"@ =~= number::decimal(2));
    text_laws::law_only_digits_are_numbers("2"@, 2, 255);
}

/// A server takes a client's version from its settings: it answers with its own settings
/// and remembers the version exactly where the version is two or more.
pub proof fn law_versions_are_answered_from_two_on(
    server: SessionView,
    data: Seq<u8>,
    v: u8,
    now: u64,
)
    requires
        !server.is_client,
        data.len() > 0,
        settings::lookup(session::settings_in(data), "v"@) == Some(number::decimal(v as nat)),
    ensures
        ({
            let f = FrameView { cmd: Command::Settings, stream_id: 0, data };
            let done = session::frame_effect(server, f, now);
            let told = ActionView::Write { frame: session::server_settings_frame(server) };
            &&& v >= 2 ==> done.actions.contains(ActionView::RememberVersion { version: v })
                && done.actions.last() == told
            &&& v < 2 ==> done.actions.len() <= 1 && (forall|i: int|
                0 <= i < done.actions.len() ==> (#[trigger] done.actions[i] matches ActionView::Write {
                    frame,
                } && frame.cmd is UpdatePaddingScheme))
        }),
{
    text_laws::law_only_digits_are_numbers(number::decimal(v as nat), v as nat, 255);
    let f = FrameView { cmd: Command::Settings, stream_id: 0, data };
    let done = session::frame_effect(server, f, now);
    if v >= 2 {
        let n = done.actions.len() as int;
        assert(done.actions[n - 2] == ActionView::RememberVersion { version: v });
    }
}

/// A session starts open and empty: no stream, nothing held back, the first stream is
/// number one, and only a client pads and has a heartbeat.
pub proof fn law_sessions_start_empty(
    id: u64,
    padding: crate::anytls::padding::Padding,
    heartbeat: Option<HeartbeatState>,
    is_client: bool,
)
    ensures
        ({
            let s = session::fresh(id, padding, is_client, heartbeat);
            &&& s.id == id
            &&& s.is_client == is_client
            &&& s.send_padding == is_client
            &&& s.streams.len() == 0
            &&& s.receivers.len() == 0
            &&& s.next_stream == 1
            &&& !s.closed
            &&& !s.buffering
            &&& s.buffer.len() == 0
            &&& s.packets == 0
            &&& s.peer_version == 0
            &&& s.stop == padding.stop
            &&& s.md5 == padding.md5@
            &&& s.raw_scheme == padding.raw_scheme@
            &&& s.heartbeat == heartbeat
            &&& !s.sending
        }),
{
}

/// Starting a client session holds back its settings and every frame behind them, and
/// sends nothing. The caller learns how often to ask for a sign of life.
pub proof fn law_a_client_starts_by_holding_frames(
    before: SessionView,
    after: SessionView,
    r: Result<Option<u64>, SessionError>,
)
    requires
        session::started(before, after, r),
        protocol::leftover(before.buffer).len() == 0,
    ensures
        after.buffering,
        r is Ok ==> protocol::frames(after.buffer) == protocol::frames(before.buffer).push(
            session::client_settings_frame(before),
        ),
        r is Ok ==> protocol::leftover(after.buffer).len() == 0,
        r matches Ok(interval) ==> interval == (match before.heartbeat {
            Some(h) => Some(h.interval),
            None => None,
        }),
        after.packets == before.packets,
        after.streams == before.streams,
{
    if r is Ok {
        let f = session::client_settings_frame(before);
        let none = Seq::<u8>::empty();
        let fs = seq![f];
        assert(fs.skip(1) =~= Seq::<FrameView>::empty());
        assert(protocol::encoded_all(fs.skip(1)) =~= none);
        assert(protocol::encoded_all(fs) =~= protocol::encoded(f));
        protocol::law_frames_round_trip(fs, none);
        assert(protocol::encoded_all(fs) + none =~= protocol::encoded(f));
        assert(fs + protocol::frames(none) =~= fs);
        protocol::law_pieces_give_the_same_frames(before.buffer, protocol::encoded(f));
        assert(protocol::leftover(before.buffer) + protocol::encoded(f) =~= protocol::encoded(f));
        assert(protocol::frames(before.buffer) + fs =~= protocol::frames(before.buffer).push(f));
    }
}

} // verus!
