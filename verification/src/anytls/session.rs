//! A session: the state machine behind one AnyTLS connection.
//!
//! The state lives here; sockets, channels and timers live with the caller. Each
//! method takes what happened, changes the state and says what is to be done.

use crate::anytls::padding;
use crate::anytls::padding::{PadStep, Padding};
use crate::anytls::protocol;
use crate::anytls::protocol::{Command, Frame, FrameView};
use crate::anytls::settings;
use crate::anytls::settings::StringMap;
use crate::number;
use crate::text;
use vstd::prelude::*;
use vstd::string::*;
use vstd::utf8::*;

verus! {

/// How often a client asks its peer for a sign of life, and how long it waits
/// for one. Both are in milliseconds.
#[derive(Clone, Copy, Debug, PartialEq, Eq, Structural)]
pub struct SessionHeartbeatConfig {
    pub interval: u64,
    pub timeout: u64,
}

/// The heartbeat of a client session.
#[derive(Clone, Copy, Debug, PartialEq, Eq, Structural)]
pub struct HeartbeatState {
    pub interval: u64,
    pub timeout: u64,
    /// When the peer last answered, in milliseconds.
    pub last_received: u64,
}

/// Why a session or one of its streams failed.
#[derive(Clone, Debug)]
pub enum SessionError {
    SessionClosed,
    Protocol(String),
    /// A frame's data is longer than a frame can carry.
    FrameTooLarge,
    /// The connection failed, for the reason given.
    Io(String),
}

/// A [`SessionError`] with its text as a sequence.
pub enum ErrorView {
    SessionClosed,
    Protocol(Seq<char>),
    FrameTooLarge,
    Io(Seq<char>),
}

impl View for SessionError {
    type V = ErrorView;

    open spec fn view(&self) -> ErrorView {
        match self {
            SessionError::SessionClosed => ErrorView::SessionClosed,
            SessionError::Protocol(m) => ErrorView::Protocol(m@),
            SessionError::FrameTooLarge => ErrorView::FrameTooLarge,
            SessionError::Io(m) => ErrorView::Io(m@),
        }
    }
}

/// What the caller has to do, in order.
#[derive(Clone, Debug)]
pub enum Action {
    /// Hand the bytes to the stream's reader.
    Deliver { stream: u32, data: Vec<u8> },
    /// Make a stream, and announce it to the server if it asked for that.
    OpenStream { stream: u32, announce: bool },
    /// Tell the stream's opener that the peer accepted.
    Accepted { stream: u32 },
    /// Tell the stream's opener that it failed.
    Refused { stream: u32, error: SessionError },
    /// Close the stream with an error.
    CloseStream { stream: u32, error: SessionError },
    /// Write the frame; where that fails, do none of what follows.
    Write { frame: Frame },
    /// Make this padding scheme the session's own if it can be read.
    AdoptScheme { raw: Vec<u8> },
    /// Remember the version that the peer announced.
    RememberVersion { version: u8 },
    /// Wake the tasks that wait for the session to close.
    NotifyClosed,
    /// Shut the connection's writing side down.
    ShutdownWriter,
}

/// An [`Action`] with its texts and bytes as sequences.
pub enum ActionView {
    Deliver { stream: u32, data: Seq<u8> },
    OpenStream { stream: u32, announce: bool },
    Accepted { stream: u32 },
    Refused { stream: u32, error: ErrorView },
    CloseStream { stream: u32, error: ErrorView },
    Write { frame: FrameView },
    AdoptScheme { raw: Seq<u8> },
    RememberVersion { version: u8 },
    NotifyClosed,
    ShutdownWriter,
}

impl View for Action {
    type V = ActionView;

    open spec fn view(&self) -> ActionView {
        match self {
            Action::Deliver { stream, data } => ActionView::Deliver {
                stream: *stream,
                data: data@,
            },
            Action::OpenStream { stream, announce } => ActionView::OpenStream {
                stream: *stream,
                announce: *announce,
            },
            Action::Accepted { stream } => ActionView::Accepted { stream: *stream },
            Action::Refused { stream, error } => ActionView::Refused {
                stream: *stream,
                error: error@,
            },
            Action::CloseStream { stream, error } => ActionView::CloseStream {
                stream: *stream,
                error: error@,
            },
            Action::Write { frame } => ActionView::Write { frame: frame@ },
            Action::AdoptScheme { raw } => ActionView::AdoptScheme { raw: raw@ },
            Action::RememberVersion { version } => ActionView::RememberVersion {
                version: *version,
            },
            Action::NotifyClosed => ActionView::NotifyClosed,
            Action::ShutdownWriter => ActionView::ShutdownWriter,
        }
    }
}

/// The views of a list of actions.
pub open spec fn action_views(v: Seq<Action>) -> Seq<ActionView> {
    v.map_values(|a: Action| a@)
}

/// The state of a session.
pub struct SessionView {
    pub id: u64,
    pub is_client: bool,
    pub send_padding: bool,
    /// The open streams.
    pub streams: Seq<u32>,
    /// The streams that bytes can be delivered to.
    pub receivers: Seq<u32>,
    pub next_stream: u32,
    pub closed: bool,
    pub raw_scheme: Seq<u8>,
    pub md5: Seq<char>,
    pub stop: u32,
    pub packets: u32,
    pub peer_version: u8,
    pub seq: u64,
    pub buffering: bool,
    pub buffer: Seq<u8>,
    pub announces: bool,
    pub server_settings: Option<settings::Entries>,
    pub heartbeat: Option<HeartbeatState>,
    /// Whether the loop that sends what streams write was ever started.
    pub sending: bool,
}

/// One side of an AnyTLS connection.
pub struct Session {
    id: u64,
    is_client: bool,
    send_padding: bool,
    streams: Vec<u32>,
    receivers: Vec<u32>,
    next_stream: u32,
    closed: bool,
    padding: Padding,
    packets: u32,
    peer_version: u8,
    seq: u64,
    buffering: bool,
    buffer: Vec<u8>,
    announces: bool,
    server_settings: Option<StringMap>,
    heartbeat: Option<HeartbeatState>,
    sending: bool,
}

impl View for Session {
    type V = SessionView;

    closed spec fn view(&self) -> SessionView {
        SessionView {
            id: self.id,
            is_client: self.is_client,
            send_padding: self.send_padding,
            streams: self.streams@,
            receivers: self.receivers@,
            next_stream: self.next_stream,
            closed: self.closed,
            raw_scheme: self.padding.raw_scheme@,
            md5: self.padding.md5@,
            stop: self.padding.stop,
            packets: self.packets,
            peer_version: self.peer_version,
            seq: self.seq,
            buffering: self.buffering,
            buffer: self.buffer@,
            announces: self.announces,
            server_settings: match self.server_settings {
                Some(m) => Some(m@),
                None => None,
            },
            heartbeat: self.heartbeat,
            sending: self.sending,
        }
    }
}

/// What holds of every session: a stream is listed once, and until the session
/// closes the open streams are exactly those that bytes can be delivered to. Only a
/// client pads what it sends.
pub open spec fn consistent(s: SessionView) -> bool {
    &&& s.send_padding == s.is_client
    &&& s.streams.no_duplicates()
    &&& s.receivers.no_duplicates()
    &&& !s.closed ==> s.streams == s.receivers
}

/// A list of streams with one more.
pub open spec fn with_id(ids: Seq<u32>, id: u32) -> Seq<u32> {
    if ids.contains(id) {
        ids
    } else {
        ids.push(id)
    }
}

/// A list of streams without one.
pub open spec fn without_id(ids: Seq<u32>, id: u32) -> Seq<u32> {
    without_all(ids, seq![id])
}

/// A list of streams without those of another list.
pub open spec fn without_all(ids: Seq<u32>, gone: Seq<u32>) -> Seq<u32> {
    ids.filter(|x: u32| !gone.contains(x))
}

fn has_id(ids: &Vec<u32>, id: u32) -> (r: bool)
    ensures
        r == ids@.contains(id),
{
    let mut i: usize = 0;
    while i < ids.len()
        invariant
            i <= ids@.len(),
            forall|j: int| 0 <= j < i ==> ids@[j] != id,
        decreases ids@.len() - i,
    {
        if ids[i] == id {
            return true;
        }
        i += 1;
    }
    false
}

fn add_id(ids: &mut Vec<u32>, id: u32)
    requires
        old(ids)@.no_duplicates(),
    ensures
        final(ids)@ == with_id(old(ids)@, id),
        final(ids)@.no_duplicates(),
{
    if !has_id(ids, id) {
        ids.push(id);
    }
}

fn remove_id(ids: &mut Vec<u32>, id: u32)
    requires
        old(ids)@.no_duplicates(),
    ensures
        final(ids)@ == without_id(old(ids)@, id),
        final(ids)@.no_duplicates(),
{
    let mut gone: Vec<u32> = Vec::new();
    gone.push(id);
    assert(gone@ =~= seq![id]);
    remove_ids(ids, &gone);
}

fn remove_ids(ids: &mut Vec<u32>, gone: &Vec<u32>)
    requires
        old(ids)@.no_duplicates(),
    ensures
        final(ids)@ == without_all(old(ids)@, gone@),
        final(ids)@.no_duplicates(),
{
    let ghost all = ids@;
    let ghost keep = |x: u32| !gone@.contains(x);
    let mut out: Vec<u32> = Vec::new();
    let mut i: usize = 0;
    proof {
        reveal(Seq::filter);
        assert(all.take(0).filter(keep) =~= Seq::<u32>::empty());
    }
    while i < ids.len()
        invariant
            ids@ == all,
            i <= all.len(),
            all.no_duplicates(),
            keep == (|x: u32| !gone@.contains(x)),
            out@ == all.take(i as int).filter(keep),
            out@.no_duplicates(),
            forall|x: u32| out@.contains(x) ==> all.take(i as int).contains(x),
        decreases all.len() - i,
    {
        let x = ids[i];
        proof {
            reveal(Seq::filter);
            let t = all.take(i + 1);
            assert(t.drop_last() == all.take(i as int));
            if out@.contains(x) {
                let j = choose|j: int| 0 <= j < i && all.take(i as int)[j] == x;
                assert(all[j] == all[i as int]);
            }
            assert forall|y: u32| out@.contains(y) || y == x implies t.contains(y) by {
                if out@.contains(y) {
                    let j = choose|j: int| 0 <= j < i && all.take(i as int)[j] == y;
                    assert(t[j] == y);
                } else {
                    assert(t[i as int] == y);
                }
            }
        }
        if !has_id(gone, x) {
            let ghost before = out@;
            out.push(x);
            assert forall|y: u32| out@.contains(y) implies all.take(i + 1).contains(y) by {
                let j = choose|j: int| 0 <= j < out@.len() && out@[j] == y;
                if j < before.len() {
                    assert(before.contains(y));
                }
            }
        }
        i += 1;
    }
    assert(all.take(i as int) == all);
    *ids = out;
}

/// What a frame does: the new state, what is to be done, and the error that
/// ends the receive loop.
pub struct Effect {
    pub state: SessionView,
    pub actions: Seq<ActionView>,
    pub error: Option<ErrorView>,
}

/// Nothing to be done and no error.
pub open spec fn settled(state: SessionView) -> Effect {
    Effect { state, actions: Seq::empty(), error: None }
}

/// The text of an alert.
pub open spec fn alert_text(data: Seq<u8>) -> Seq<char> {
    if data.len() == 0 {
        "Unknown alert"@
    } else {
        text::utf8_lossy(data)
    }
}

/// The settings in a frame's data.
pub open spec fn settings_in(data: Seq<u8>) -> settings::Entries {
    settings::entries_of(text::parts(text::utf8_lossy(data), '\n'))
}

/// The protocol version in settings.
pub open spec fn version_in(e: settings::Entries) -> Option<nat> {
    match settings::lookup(e, "v"@) {
        Some(t) => number::unsigned(t, 255),
        None => None,
    }
}

/// The frame that sends the server's padding scheme.
pub open spec fn scheme_frame(s: SessionView) -> FrameView {
    FrameView { cmd: Command::UpdatePaddingScheme, stream_id: 0, data: s.raw_scheme }
}

/// What a server answers to a client's settings: version 2 and its own extras.
pub open spec fn server_entries(s: SessionView) -> settings::Entries {
    let base = settings::put(Seq::empty(), "v"@, "2"@);
    match s.server_settings {
        Some(extra) => settings::put_all(base, extra),
        None => base,
    }
}

/// The frame that sends the server's settings.
pub open spec fn server_settings_frame(s: SessionView) -> FrameView {
    FrameView {
        cmd: Command::ServerSettings,
        stream_id: 0,
        data: encode_utf8(settings::text_of(server_entries(s))),
    }
}

/// Whether a client's settings show that it does not know the server's padding scheme.
pub open spec fn owes_scheme(s: SessionView, e: settings::Entries) -> bool {
    match settings::lookup(e, "padding-md5"@) {
        Some(m) => m != s.md5,
        None => false,
    }
}

/// What a server does with a client's settings. The version is only remembered once
/// the scheme, where it is owed, was written.
pub open spec fn settings_effect(s: SessionView, data: Seq<u8>) -> Effect {
    let e = settings_in(data);
    let first = if owes_scheme(s, e) {
        seq![ActionView::Write { frame: scheme_frame(s) }]
    } else {
        Seq::empty()
    };
    match version_in(e) {
        Some(v) if v >= 2 => Effect {
            state: s,
            actions: first.push(ActionView::RememberVersion { version: v as u8 }).push(
                ActionView::Write { frame: server_settings_frame(s) },
            ),
            error: None,
        },
        _ => Effect { state: s, actions: first, error: None },
    }
}

/// What an incoming frame does to a session.
pub open spec fn frame_effect(s: SessionView, f: FrameView, now: u64) -> Effect {
    match f.cmd {
        Command::Push => if s.receivers.contains(f.stream_id) {
            Effect {
                state: s,
                actions: seq![ActionView::Deliver { stream: f.stream_id, data: f.data }],
                error: None,
            }
        } else {
            settled(s)
        },
        Command::Syn => if s.is_client {
            settled(s)
        } else {
            Effect {
                state: SessionView {
                    streams: with_id(s.streams, f.stream_id),
                    receivers: with_id(s.receivers, f.stream_id),
                    ..s
                },
                actions: seq![
                    ActionView::OpenStream { stream: f.stream_id, announce: s.announces },
                ],
                error: None,
            }
        },
        Command::SynAck => if !s.is_client || !s.streams.contains(f.stream_id) {
            settled(s)
        } else if f.data.len() == 0 {
            Effect {
                state: s,
                actions: seq![ActionView::Accepted { stream: f.stream_id }],
                error: None,
            }
        } else {
            Effect {
                state: s,
                actions: seq![
                    ActionView::Refused {
                        stream: f.stream_id,
                        error: ErrorView::Protocol("Server error: "@ + text::utf8_lossy(f.data)),
                    },
                ],
                error: None,
            }
        },
        Command::Fin => settled(
            SessionView {
                streams: without_id(s.streams, f.stream_id),
                receivers: without_id(s.receivers, f.stream_id),
                ..s
            },
        ),
        Command::Settings => if s.is_client || f.data.len() == 0 {
            settled(s)
        } else {
            settings_effect(s, f.data)
        },
        Command::ServerSettings => if !s.is_client || f.data.len() == 0 {
            settled(s)
        } else {
            match version_in(settings_in(f.data)) {
                Some(v) => settled(SessionView { peer_version: v as u8, ..s }),
                None => settled(s),
            }
        },
        Command::UpdatePaddingScheme => if !s.is_client || f.data.len() == 0 {
            settled(s)
        } else {
            Effect {
                state: s,
                actions: seq![ActionView::AdoptScheme { raw: f.data }],
                error: None,
            }
        },
        Command::Alert => Effect {
            state: SessionView { streams: Seq::empty(), closed: true, ..s },
            actions: closings(
                s.streams,
                ErrorView::Protocol("Session closed due to alert: "@ + alert_text(f.data)),
            ),
            error: Some(ErrorView::Protocol("Alert: "@ + alert_text(f.data))),
        },
        Command::HeartRequest => Effect {
            state: s,
            actions: seq![
                ActionView::Write { frame: protocol::control(Command::HeartResponse, f.stream_id) },
            ],
            error: None,
        },
        Command::HeartResponse => match s.heartbeat {
            Some(h) => settled(
                SessionView {
                    heartbeat: Some(HeartbeatState { last_received: now, ..h }),
                    ..s
                },
            ),
            None => settled(s),
        },
        Command::Waste | Command::Other(_) => settled(s),
    }
}

/// The actions that close each stream of a list with an error.
pub open spec fn closings(ids: Seq<u32>, error: ErrorView) -> Seq<ActionView> {
    ids.map_values(|id: u32| ActionView::CloseStream { stream: id, error })
}

/// The actions that close each stream and tell its opener that it failed.
pub open spec fn endings(ids: Seq<u32>) -> Seq<ActionView>
    decreases ids.len(),
{
    if ids.len() == 0 {
        Seq::empty()
    } else {
        endings(ids.drop_last()).push(
            ActionView::CloseStream { stream: ids.last(), error: ErrorView::SessionClosed },
        ).push(ActionView::Refused { stream: ids.last(), error: ErrorView::SessionClosed })
    }
}

/// What closing a session does.
pub open spec fn close_effect(s: SessionView) -> Effect {
    if s.closed {
        settled(s)
    } else {
        Effect {
            state: SessionView {
                closed: true,
                streams: Seq::empty(),
                receivers: without_all(s.receivers, s.streams),
                ..s
            },
            actions: (seq![ActionView::NotifyClosed] + endings(s.streams)).push(
                ActionView::ShutdownWriter,
            ),
            error: None,
        }
    }
}

fn one(a: Action) -> (v: Vec<Action>)
    ensures
        action_views(v@) == seq![a@],
{
    let mut v: Vec<Action> = Vec::new();
    v.push(a);
    assert(action_views(v@) =~= seq![a@]);
    v
}

fn none() -> (v: Vec<Action>)
    ensures
        action_views(v@) == Seq::<ActionView>::empty(),
{
    let v: Vec<Action> = Vec::new();
    assert(action_views(v@) =~= Seq::<ActionView>::empty());
    v
}

fn push_action(v: &mut Vec<Action>, a: Action)
    ensures
        action_views(final(v)@) == action_views(old(v)@).push(a@),
{
    let ghost before = v@;
    v.push(a);
    assert(action_views(v@) =~= action_views(before).push(a@));
}

fn close_each(ids: &Vec<u32>, message: &str) -> (out: Vec<Action>)
    ensures
        action_views(out@) == closings(ids@, ErrorView::Protocol(message@)),
{
    let mut out = none();
    let ghost error = ErrorView::Protocol(message@);
    let mut i: usize = 0;
    while i < ids.len()
        invariant
            i <= ids@.len(),
            error == ErrorView::Protocol(message@),
            action_views(out@) == closings(ids@.take(i as int), error),
        decreases ids@.len() - i,
    {
        let a = Action::CloseStream {
            stream: ids[i],
            error: SessionError::Protocol(message.to_owned()),
        };
        assert(closings(ids@.take(i + 1), error) =~= closings(ids@.take(i as int), error).push(a@));
        push_action(&mut out, a);
        i += 1;
    }
    assert(ids@.take(i as int) == ids@);
    out
}

impl Session {
    /// What holds of every session.
    pub open spec fn wf(&self) -> bool {
        consistent(self@)
    }

    /// A client session over a fresh connection.
    pub fn new_client(
        id: u64,
        padding: Padding,
        heartbeat: Option<SessionHeartbeatConfig>,
        now: u64,
    ) -> (s: Session)
        ensures
            s.wf(),
            s@ == fresh(id, padding, true, match heartbeat {
                Some(c) => Some(
                    HeartbeatState { interval: c.interval, timeout: c.timeout, last_received: now },
                ),
                None => None,
            }),
    {
        let heartbeat = match heartbeat {
            Some(c) => Some(
                HeartbeatState { interval: c.interval, timeout: c.timeout, last_received: now },
            ),
            None => None,
        };
        Session {
            id,
            is_client: true,
            send_padding: true,
            streams: Vec::new(),
            receivers: Vec::new(),
            next_stream: 1,
            closed: false,
            padding,
            packets: 0,
            peer_version: 0,
            seq: 0,
            buffering: false,
            buffer: Vec::new(),
            announces: false,
            server_settings: None,
            heartbeat,
            sending: false,
        }
    }

    /// A server session over an accepted connection.
    pub fn new_server(id: u64, padding: Padding) -> (s: Session)
        ensures
            s.wf(),
            s@ == fresh(id, padding, false, None),
    {
        Session {
            id,
            is_client: false,
            send_padding: false,
            streams: Vec::new(),
            receivers: Vec::new(),
            next_stream: 1,
            closed: false,
            padding,
            packets: 0,
            peer_version: 0,
            seq: 0,
            buffering: false,
            buffer: Vec::new(),
            announces: false,
            server_settings: None,
            heartbeat: None,
            sending: false,
        }
    }

    /// Session identifier.
    pub fn id(&self) -> (r: u64)
        ensures
            r == self@.id,
    {
        self.id
    }

    /// Asks for new streams to be announced. Only a server announces streams.
    pub fn set_stream_callback(&mut self)
        ensures
            final(self)@ == (SessionView {
                announces: old(self)@.announces || !old(self)@.is_client,
                ..old(self)@
            }),
    {
        if !self.is_client {
            self.announces = true;
        }
    }

    /// Sets what a server adds to its settings.
    pub fn set_server_settings(&mut self, settings: Option<StringMap>)
        ensures
            final(self)@ == (SessionView {
                server_settings: match settings {
                    Some(m) => Some(m@),
                    None => None,
                },
                ..old(self)@
            }),
    {
        self.server_settings = settings;
    }

    /// Whether the session is closed.
    pub fn is_closed(&self) -> (r: bool)
        ensures
            r == self@.closed,
    {
        self.closed
    }

    /// Whether the session carries any open stream.
    pub fn has_active_streams(&self) -> (r: bool)
        ensures
            r == (self@.streams.len() > 0),
    {
        self.streams.len() > 0
    }

    /// The sequence number that orders sessions in a pool.
    pub fn seq(&self) -> (r: u64)
        ensures
            r == self@.seq,
    {
        self.seq
    }

    /// Sets the sequence number.
    pub fn set_seq(&mut self, seq: u64)
        ensures
            final(self)@ == (SessionView { seq, ..old(self)@ }),
    {
        self.seq = seq;
    }

    /// The version that the peer announced, or zero.
    pub fn peer_version(&self) -> (r: u8)
        ensures
            r == self@.peer_version,
    {
        self.peer_version
    }

    /// Remembers the version that the peer announced.
    pub fn remember_version(&mut self, version: u8)
        ensures
            final(self)@ == (SessionView { peer_version: version, ..old(self)@ }),
    {
        self.peer_version = version;
    }

    /// Makes a padding scheme the session's own.
    pub fn adopt_padding(&mut self, padding: Padding)
        ensures
            final(self)@ == (SessionView {
                raw_scheme: padding.raw_scheme@,
                md5: padding.md5@,
                stop: padding.stop,
                ..old(self)@
            }),
    {
        self.padding = padding;
    }

    /// Closes the session. Closing it again does nothing.
    pub fn close(&mut self) -> (actions: Vec<Action>)
        requires
            old(self).wf(),
        ensures
            final(self).wf(),
            final(self)@ == close_effect(old(self)@).state,
            action_views(actions@) == close_effect(old(self)@).actions,
    {
        if self.closed {
            return none();
        }
        self.closed = true;
        let mut actions = one(Action::NotifyClosed);
        let ghost ids = self.streams@;
        let mut i: usize = 0;
        assert(seq![ActionView::NotifyClosed] + endings(ids.take(0)) =~= seq![
            ActionView::NotifyClosed,
        ]);
        while i < self.streams.len()
            invariant
                self.streams@ == ids,
                i <= ids.len(),
                action_views(actions@) == seq![ActionView::NotifyClosed] + endings(
                    ids.take(i as int),
                ),
            decreases ids.len() - i,
        {
            let stream: u32 = self.streams[i];
            let ghost now = ids.take(i + 1);
            let ghost done = endings(ids.take(i as int));
            assert(now.drop_last() == ids.take(i as int));
            push_action(
                &mut actions,
                Action::CloseStream { stream, error: SessionError::SessionClosed },
            );
            push_action(
                &mut actions,
                Action::Refused { stream, error: SessionError::SessionClosed },
            );
            assert(action_views(actions@) =~= seq![ActionView::NotifyClosed] + endings(now));
            i += 1;
        }
        assert(ids.take(i as int) == ids);
        push_action(&mut actions, Action::ShutdownWriter);
        remove_ids(&mut self.receivers, &self.streams);
        self.streams = Vec::new();
        actions
    }

    /// What follows when a record cannot be written or flushed: the session is closed,
    /// and the writer of the frame gets the error of the connection.
    pub fn write_failed(&mut self, reason: String) -> (r: (Vec<Action>, SessionError))
        requires
            old(self).wf(),
        ensures
            final(self).wf(),
            final(self)@ == close_effect(old(self)@).state,
            final(self)@.closed,
            action_views(r.0@) == close_effect(old(self)@).actions,
            r.1@ == ErrorView::Io(reason@),
    {
        (self.close(), SessionError::Io(reason))
    }

    /// Handles one incoming frame.
    pub fn handle_frame(&mut self, frame: Frame, now: u64) -> (r: (
        Vec<Action>,
        Option<SessionError>,
    ))
        requires
            old(self).wf(),
        ensures
            final(self).wf(),
            final(self)@ == frame_effect(old(self)@, frame@, now).state,
            action_views(r.0@) == frame_effect(old(self)@, frame@, now).actions,
            (match r.1 {
                Some(e) => frame_effect(old(self)@, frame@, now).error == Some(e@),
                None => frame_effect(old(self)@, frame@, now).error is None,
            }),
    {
        let stream: u32 = frame.stream_id;
        match frame.cmd {
            Command::Push => {
                if has_id(&self.receivers, stream) {
                    (one(Action::Deliver { stream, data: frame.data }), None)
                } else {
                    (none(), None)
                }
            },
            Command::Syn => {
                if self.is_client {
                    (none(), None)
                } else {
                    add_id(&mut self.receivers, stream);
                    add_id(&mut self.streams, stream);
                    (one(Action::OpenStream { stream, announce: self.announces }), None)
                }
            },
            Command::SynAck => {
                if !self.is_client || !has_id(&self.streams, stream) {
                    (none(), None)
                } else if frame.data.len() == 0 {
                    (one(Action::Accepted { stream }), None)
                } else {
                    let reason = text::lossy(frame.data.as_slice());
                    let error = SessionError::Protocol(
                        "Server error: ".to_owned().concat(reason.as_str()),
                    );
                    (one(Action::Refused { stream, error }), None)
                }
            },
            Command::Fin => {
                remove_id(&mut self.streams, stream);
                remove_id(&mut self.receivers, stream);
                (none(), None)
            },
            Command::Settings => {
                if self.is_client || frame.data.len() == 0 {
                    (none(), None)
                } else {
                    (self.client_settings(frame.data.as_slice()), None)
                }
            },
            Command::ServerSettings => {
                if self.is_client && frame.data.len() > 0 {
                    let settings = StringMap::from_bytes(frame.data.as_slice());
                    if let Some(t) = settings.get("v") {
                        if let Some(v) = number::parse_u8(t.as_str()) {
                            self.peer_version = v;
                        }
                    }
                }
                (none(), None)
            },
            Command::UpdatePaddingScheme => {
                if self.is_client && frame.data.len() > 0 {
                    (one(Action::AdoptScheme { raw: frame.data }), None)
                } else {
                    (none(), None)
                }
            },
            Command::Alert => {
                let reason = if frame.data.len() == 0 {
                    "Unknown alert".to_owned()
                } else {
                    text::lossy(frame.data.as_slice())
                };
                let message = "Session closed due to alert: ".to_owned().concat(reason.as_str());
                let actions = close_each(&self.streams, message.as_str());
                self.streams = Vec::new();
                self.closed = true;
                let error = SessionError::Protocol("Alert: ".to_owned().concat(reason.as_str()));
                (actions, Some(error))
            },
            Command::HeartRequest => {
                let response = Frame::control(Command::HeartResponse, stream);
                (one(Action::Write { frame: response }), None)
            },
            Command::HeartResponse => {
                if let Some(h) = self.heartbeat {
                    self.heartbeat = Some(HeartbeatState { last_received: now, ..h });
                }
                (none(), None)
            },
            Command::Waste | Command::Other(_) => (none(), None),
        }
    }

    /// Answers a client's settings.
    fn client_settings(&self, data: &[u8]) -> (actions: Vec<Action>)
        requires
            data@.len() > 0,
        ensures
            settings_effect(self@, data@).state == self@,
            action_views(actions@) == settings_effect(self@, data@).actions,
    {
        let settings = StringMap::from_bytes(data);
        let mut actions = none();
        if let Some(theirs) = settings.get("padding-md5") {
            if !text::same(theirs.as_str(), self.padding.md5.as_str()) {
                let mut raw: Vec<u8> = Vec::new();
                raw.extend_from_slice(self.padding.raw_scheme.as_slice());
                assert(raw@ =~= self.padding.raw_scheme@);
                let frame = Frame::with_data(Command::UpdatePaddingScheme, 0, raw);
                push_action(&mut actions, Action::Write { frame });
                assert(action_views(actions@) =~= seq![
                    ActionView::Write { frame: scheme_frame(self@) },
                ]);
            }
        }
        if let Some(t) = settings.get("v") {
            if let Some(v) = number::parse_u8(t.as_str()) {
                if v >= 2 {
                    push_action(&mut actions, Action::RememberVersion { version: v });
                    let mut ours = StringMap::new();
                    ours.insert("v", "2");
                    if let Some(extra) = &self.server_settings {
                        ours.insert_all(extra);
                    }
                    let frame = Frame::with_data(Command::ServerSettings, 0, ours.to_bytes());
                    push_action(&mut actions, Action::Write { frame });
                }
            }
        }
        actions
    }
}

/// The state of a session over a fresh connection.
pub open spec fn fresh(
    id: u64,
    padding: Padding,
    is_client: bool,
    heartbeat: Option<HeartbeatState>,
) -> SessionView {
    SessionView {
        id,
        is_client,
        send_padding: is_client,
        streams: Seq::empty(),
        receivers: Seq::empty(),
        next_stream: 1,
        closed: false,
        raw_scheme: padding.raw_scheme@,
        md5: padding.md5@,
        stop: padding.stop,
        packets: 0,
        peer_version: 0,
        seq: 0,
        buffering: false,
        buffer: Seq::empty(),
        announces: false,
        server_settings: None,
        heartbeat,
        sending: false,
    }
}

/// The records that go on the wire for the bytes of one or more frames.
pub open spec fn wire_records(s: SessionView, out: Seq<u8>, steps: Seq<PadStep>) -> Seq<Seq<u8>> {
    if !s.send_padding || s.packets >= s.stop || steps.len() == 0 {
        seq![out]
    } else {
        padding::records(out, steps)
    }
}

/// The records that go on the wire when a frame is written: none while frames are
/// held back, else those of all that is due.
pub open spec fn packet_records(s: SessionView, f: FrameView, steps: Seq<PadStep>) -> Seq<Seq<u8>> {
    if s.buffering {
        Seq::empty()
    } else {
        wire_records(s, s.buffer + protocol::encoded(f), steps)
    }
}

/// The state after a frame was written.
pub open spec fn written(s: SessionView, f: FrameView) -> SessionView {
    if s.buffering {
        SessionView { buffer: s.buffer + protocol::encoded(f), ..s }
    } else {
        SessionView {
            buffer: Seq::empty(),
            packets: if s.send_padding {
                wrapping_next(s.packets)
            } else {
                s.packets
            },
            ..s
        }
    }
}

/// The next value of a counter of 32 bits.
pub open spec fn wrapping_next(n: u32) -> u32 {
    if n == u32::MAX {
        0
    } else {
        (n + 1) as u32
    }
}

/// What a client says of itself at the start of a session.
pub open spec fn client_entries(s: SessionView) -> settings::Entries {
    settings::put(
        settings::put(
            settings::put(Seq::empty(), "v"@, "2"@),
            "client"@,
            "anytls-rs/0.1.0"@,
        ),
        "padding-md5"@,
        s.md5,
    )
}

/// The frame that opens a client session.
pub open spec fn client_settings_frame(s: SessionView) -> FrameView {
    FrameView {
        cmd: Command::Settings,
        stream_id: 0,
        data: encode_utf8(settings::text_of(client_entries(s))),
    }
}

/// What happened to the receive loop.
#[derive(Clone, Debug)]
pub enum RecvEvent {
    /// The loop starts another round.
    Round,
    /// The connection gave these bytes; none at its end.
    Read(Vec<u8>),
    /// Reading failed.
    Failed { message: String, unexpected_eof: bool },
}

/// What the receive loop does next.
#[derive(Clone, Debug)]
pub enum RecvStep {
    /// Read from the connection.
    Read,
    /// Handle these frames in order; the first error ends the loop.
    Handle(Vec<Frame>),
    /// End without an error, after these actions.
    Stop(Vec<Action>),
    /// End with the error of the connection, after these actions.
    Fail(Vec<Action>, SessionError),
}

/// Whether a failed read only means that the peer left without a farewell.
pub open spec fn harmless_end(message: Seq<char>, unexpected_eof: bool) -> bool {
    ||| text::has_substring(message, "close_notify"@)
    ||| text::has_substring(message, "unexpected EOF"@)
    ||| unexpected_eof
}

/// What a turn of the receive loop does: nothing of the session changes while bytes come
/// in, and the end of the connection closes it.
pub open spec fn received(
    before: SessionView,
    pending: Seq<u8>,
    event: RecvEvent,
    after: SessionView,
    rest: Seq<u8>,
    step: RecvStep,
) -> bool {
    match event {
        RecvEvent::Round => {
            &&& after == before
            &&& rest == pending
            &&& if before.closed {
                step matches RecvStep::Stop(a) && action_views(a@).len() == 0
            } else {
                step is Read
            }
        },
        RecvEvent::Read(bytes) if bytes@.len() > 0 => {
            &&& after == before
            &&& step matches RecvStep::Handle(fs)
            &&& frame_views(fs@) == protocol::frames(pending + bytes@)
            &&& rest == protocol::leftover(pending + bytes@)
        },
        RecvEvent::Read(bytes) => {
            &&& after == close_effect(before).state
            &&& rest == pending
            &&& step matches RecvStep::Stop(a)
            &&& action_views(a@) == close_effect(before).actions
        },
        RecvEvent::Failed { message, unexpected_eof } => {
            &&& after == close_effect(before).state
            &&& rest == pending
            &&& if harmless_end(message@, unexpected_eof) {
                step matches RecvStep::Stop(a) && action_views(a@) == close_effect(
                    before,
                ).actions
            } else {
                step matches RecvStep::Fail(a, e) && action_views(a@) == close_effect(
                    before,
                ).actions && e@ == ErrorView::Io(message@)
            }
        },
    }
}

/// What happened to the loop that sends what streams write.
#[derive(Clone, Debug)]
pub enum StreamEvent {
    /// The loop is started.
    Start,
    /// The session was closed.
    Closed,
    /// No stream can send any more.
    Ended,
    /// A stream wrote bytes; none where it closes.
    Data { stream: u32, data: Vec<u8> },
}

/// A [`StreamEvent`] with its bytes as a sequence.
pub enum StreamEventView {
    Start,
    Closed,
    Ended,
    Data { stream: u32, data: Seq<u8> },
}

impl View for StreamEvent {
    type V = StreamEventView;

    open spec fn view(&self) -> StreamEventView {
        match self {
            StreamEvent::Start => StreamEventView::Start,
            StreamEvent::Closed => StreamEventView::Closed,
            StreamEvent::Ended => StreamEventView::Ended,
            StreamEvent::Data { stream, data } => StreamEventView::Data {
                stream: *stream,
                data: data@,
            },
        }
    }
}

/// What the sending loop does next.
#[derive(Clone, Debug)]
pub enum StreamStep {
    /// Wait for what streams write.
    Wait,
    /// End without an error.
    Stop,
    /// Write the frame, whether or not that works.
    TryWrite(Frame),
    /// Write the frame; where that fails, end with the error.
    Write(Frame),
}

/// A [`StreamStep`] with its frame as a value.
pub enum StreamStepView {
    Wait,
    Stop,
    TryWrite(FrameView),
    Write(FrameView),
}

impl View for StreamStep {
    type V = StreamStepView;

    open spec fn view(&self) -> StreamStepView {
        match self {
            StreamStep::Wait => StreamStepView::Wait,
            StreamStep::Stop => StreamStepView::Stop,
            StreamStep::TryWrite(f) => StreamStepView::TryWrite(f@),
            StreamStep::Write(f) => StreamStepView::Write(f@),
        }
    }
}

/// What an event does to the loop that sends what streams write: the new state and the
/// next step. The loop is started once; a second start ends at once.
pub open spec fn sending_effect(s: SessionView, e: StreamEventView) -> (
    SessionView,
    StreamStepView,
) {
    match e {
        StreamEventView::Start => if s.sending {
            (s, StreamStepView::Stop)
        } else {
            (SessionView { sending: true, ..s }, StreamStepView::Wait)
        },
        StreamEventView::Closed | StreamEventView::Ended => (s, StreamStepView::Stop),
        StreamEventView::Data { stream, data } => if s.closed {
            (s, StreamStepView::Stop)
        } else if data.len() == 0 {
            (
                SessionView {
                    streams: without_id(s.streams, stream),
                    receivers: without_id(s.receivers, stream),
                    ..s
                },
                StreamStepView::TryWrite(protocol::control(Command::Fin, stream)),
            )
        } else {
            (
                s,
                StreamStepView::Write(
                    FrameView { cmd: Command::Push, stream_id: stream, data },
                ),
            )
        },
    }
}

/// What a heartbeat does.
#[derive(Clone, Debug)]
pub enum HeartbeatStep {
    /// The session is closed: stop.
    Exit,
    /// The peer was silent for too long: close the session and stop.
    Close,
    /// Ask for a sign of life; where that cannot be written, close and stop.
    Ask(Frame),
}

/// What a tick of the heartbeat does.
pub open spec fn ticked(s: SessionView, now: u64, step: HeartbeatStep) -> bool {
    match s.heartbeat {
        Some(h) if !s.closed => {
            let silent = if now > h.last_received {
                now - h.last_received
            } else {
                0
            };
            if silent > h.timeout {
                step is Close
            } else {
                step matches HeartbeatStep::Ask(f) && f@ == protocol::control(
                    Command::HeartRequest,
                    0,
                )
            }
        },
        _ => step is Exit,
    }
}

/// What opening a stream does.
pub open spec fn opened(
    before: SessionView,
    after: SessionView,
    r: Result<(u32, Frame), SessionError>,
) -> bool {
    match r {
        Err(e) => before.closed && e@ == ErrorView::SessionClosed && after == before,
        Ok((id, frame)) => {
            &&& !before.closed
            &&& id == before.next_stream
            &&& frame@ == protocol::control(Command::Syn, id)
            &&& after == (SessionView {
                next_stream: wrapping_next(id),
                streams: with_id(before.streams, id),
                receivers: with_id(before.receivers, id),
                ..before
            })
        },
    }
}

/// What starting a client session does.
pub open spec fn started(
    before: SessionView,
    after: SessionView,
    r: Result<Option<u64>, SessionError>,
) -> bool {
    match r {
        Ok(interval) => {
            &&& protocol::encodable(client_settings_frame(before))
            &&& after == (SessionView {
                buffering: true,
                buffer: before.buffer + protocol::encoded(
                    client_settings_frame(before),
                ),
                ..before
            })
            &&& interval == (match before.heartbeat {
                Some(h) => Some(h.interval),
                None => None,
            })
        },
        Err(e) => {
            &&& !protocol::encodable(client_settings_frame(before))
            &&& e@ == ErrorView::FrameTooLarge
            &&& after == (SessionView { buffering: true, ..before })
        },
    }
}

impl Session {
    /// The number of the packet that is written next.
    pub fn next_packet(&self) -> (r: u32)
        ensures
            r == self@.packets,
    {
        self.packets
    }

    /// Opens a stream. The caller writes the frame.
    pub fn open_stream(&mut self) -> (r: Result<(u32, Frame), SessionError>)
        requires
            old(self).wf(),
        ensures
            final(self).wf(),
            opened(old(self)@, final(self)@, r),
    {
        if self.closed {
            return Err(SessionError::SessionClosed);
        }
        let id: u32 = self.next_stream;
        self.next_stream = id.wrapping_add(1);
        add_id(&mut self.receivers, id);
        add_id(&mut self.streams, id);
        Ok((id, Frame::control(Command::Syn, id)))
    }

    /// Stops holding frames back. What was held back goes out with the next
    /// frame.
    pub fn disable_buffering(&mut self)
        ensures
            final(self)@ == (SessionView { buffering: false, ..old(self)@ }),
    {
        self.buffering = false;
    }

    /// Writes the bytes of a stream.
    pub fn write_data_frame(&mut self, stream_id: u32, data: Vec<u8>, steps: &Vec<PadStep>) -> (r:
        Result<Vec<Vec<u8>>, SessionError>)
        requires
            old(self).wf(),
            padding::valid_steps(steps@),
        ensures
            final(self).wf(),
            ({
                let f = FrameView { cmd: Command::Push, stream_id, data: data@ };
                write_result(old(self)@, f, steps@, final(self)@, r)
            }),
    {
        self.write_frame(Frame::data(stream_id, data), steps)
    }

    /// Writes a frame that asks something of the peer.
    pub fn write_control_frame(&mut self, frame: Frame, steps: &Vec<PadStep>) -> (r: Result<
        Vec<Vec<u8>>,
        SessionError,
    >)
        requires
            old(self).wf(),
            padding::valid_steps(steps@),
        ensures
            final(self).wf(),
            write_result(old(self)@, frame@, steps@, final(self)@, r),
    {
        self.write_frame(frame, steps)
    }

    /// Writes a frame: into the buffer while frames are held back, else onto the
    /// wire together with what was held back. Gives the records for the wire,
    /// which the caller writes in order and then flushes. The steps are the
    /// plan of the padding scheme for the next packet.
    pub fn write_frame(&mut self, frame: Frame, steps: &Vec<PadStep>) -> (r: Result<
        Vec<Vec<u8>>,
        SessionError,
    >)
        requires
            old(self).wf(),
            padding::valid_steps(steps@),
        ensures
            final(self).wf(),
            write_result(old(self)@, frame@, steps@, final(self)@, r),
    {
        let ghost before = self@;
        let mut encoded = match frame.encode() {
            Some(e) => e,
            None => {
                return Err(SessionError::FrameTooLarge);
            },
        };
        if self.buffering {
            self.buffer.append(&mut encoded);
            let out: Vec<Vec<u8>> = Vec::new();
            assert(record_views(out@) =~= Seq::<Seq<u8>>::empty());
            return Ok(out);
        }
        let mut out: Vec<u8> = Vec::new();
        out.append(&mut self.buffer);
        out.append(&mut encoded);
        assert(out@ =~= before.buffer + protocol::encoded(frame@));
        assert(self.buffer@ =~= Seq::<u8>::empty());
        Ok(self.write_with_padding(out, steps))
    }

    /// Makes the records of a packet, padded while the scheme says so.
    fn write_with_padding(&mut self, out: Vec<u8>, steps: &Vec<PadStep>) -> (r: Vec<Vec<u8>>)
        requires
            old(self).wf(),
            padding::valid_steps(steps@),
        ensures
            final(self).wf(),
            record_views(r@) == wire_records(old(self)@, out@, steps@),
            final(self)@ == (SessionView {
                packets: if old(self)@.send_padding {
                    wrapping_next(old(self)@.packets)
                } else {
                    old(self)@.packets
                },
                ..old(self)@
            }),
    {
        let packet: u32 = self.packets;
        if self.send_padding {
            self.packets = packet.wrapping_add(1);
            if packet < self.padding.stop && steps.len() > 0 {
                return padding::pad(&out, steps);
            }
        }
        let ghost bytes = out@;
        let mut records: Vec<Vec<u8>> = Vec::new();
        records.push(out);
        assert(record_views(records@) =~= seq![bytes]);
        records
    }

    /// Starts a client session: its settings are the first frame, and frames are
    /// held back from here on. Gives the interval of the heartbeat, if any.
    pub fn start_client(&mut self) -> (r: Result<Option<u64>, SessionError>)
        requires
            old(self).wf(),
        ensures
            final(self).wf(),
            started(old(self)@, final(self)@, r),
    {
        let mut settings = StringMap::new();
        settings.insert("v", "2");
        settings.insert("client", "anytls-rs/0.1.0");
        settings.insert("padding-md5", self.padding.md5.as_str());
        let data = settings.to_bytes();
        self.buffering = true;
        if data.len() > 65535 {
            return Err(SessionError::FrameTooLarge);
        }
        let frame = Frame::with_data(Command::Settings, 0, data);
        let steps: Vec<PadStep> = Vec::new();
        let interval = match self.heartbeat {
            Some(h) => Some(h.interval),
            None => None,
        };
        match self.write_frame(frame, &steps) {
            Ok(_) => Ok(interval),
            Err(e) => Err(e),
        }
    }

    /// One turn of the receive loop. The pending bytes are those that do not
    /// make a complete frame yet.
    pub fn recv_loop(&mut self, pending: &mut Vec<u8>, event: RecvEvent) -> (step: RecvStep)
        requires
            old(self).wf(),
        ensures
            final(self).wf(),
            received(old(self)@, old(pending)@, event, final(self)@, final(pending)@, step),
    {
        match event {
            RecvEvent::Round => {
                if self.closed {
                    RecvStep::Stop(none())
                } else {
                    RecvStep::Read
                }
            },
            RecvEvent::Read(bytes) => {
                let mut bytes = bytes;
                if bytes.len() == 0 {
                    return RecvStep::Stop(self.close());
                }
                let ghost total = pending@ + bytes@;
                pending.append(&mut bytes);
                assert(pending@ =~= total);
                RecvStep::Handle(protocol::decode(pending))
            },
            RecvEvent::Failed { message, unexpected_eof } => {
                let harmless = text::contains(message.as_str(), "close_notify")
                    || text::contains(message.as_str(), "unexpected EOF") || unexpected_eof;
                let actions = self.close();
                if harmless {
                    RecvStep::Stop(actions)
                } else {
                    RecvStep::Fail(actions, SessionError::Io(message))
                }
            },
        }
    }

    /// One turn of the loop that sends what streams write.
    pub fn process_stream_data(&mut self, event: StreamEvent) -> (step: StreamStep)
        requires
            old(self).wf(),
        ensures
            final(self).wf(),
            final(self)@ == sending_effect(old(self)@, event@).0,
            step@ == sending_effect(old(self)@, event@).1,
    {
        match event {
            StreamEvent::Start => {
                if self.sending {
                    StreamStep::Stop
                } else {
                    self.sending = true;
                    StreamStep::Wait
                }
            },
            StreamEvent::Closed | StreamEvent::Ended => StreamStep::Stop,
            StreamEvent::Data { stream, data } => {
                if self.closed {
                    StreamStep::Stop
                } else if data.len() == 0 {
                    remove_id(&mut self.streams, stream);
                    remove_id(&mut self.receivers, stream);
                    StreamStep::TryWrite(Frame::control(Command::Fin, stream))
                } else {
                    StreamStep::Write(Frame::data(stream, data))
                }
            },
        }
    }

    /// One tick of the heartbeat.
    pub fn heartbeat_tick(&self, now: u64) -> (step: HeartbeatStep)
        ensures
            ticked(self@, now, step),
    {
        if self.closed {
            return HeartbeatStep::Exit;
        }
        match self.heartbeat {
            None => HeartbeatStep::Exit,
            Some(h) => {
                let silent: u64 = now.saturating_sub(h.last_received);
                if silent > h.timeout {
                    HeartbeatStep::Close
                } else {
                    HeartbeatStep::Ask(Frame::control(Command::HeartRequest, 0))
                }
            },
        }
    }
}

/// The views of a list of records.
pub open spec fn record_views(v: Seq<Vec<u8>>) -> Seq<Seq<u8>> {
    v.map_values(|r: Vec<u8>| r@)
}

/// The views of a list of frames.
pub open spec fn frame_views(v: Seq<Frame>) -> Seq<FrameView> {
    v.map_values(|f: Frame| f@)
}

/// What writing a frame gives: nothing for the wire while frames are held back,
/// else the records of all that is due, and an error only where the frame is
/// too large to be written.
pub open spec fn write_result(
    before: SessionView,
    f: FrameView,
    steps: Seq<PadStep>,
    after: SessionView,
    r: Result<Vec<Vec<u8>>, SessionError>,
) -> bool {
    match r {
        Err(e) => {
            &&& !protocol::encodable(f)
            &&& e@ == ErrorView::FrameTooLarge
            &&& after == before
        },
        Ok(out) => {
            &&& protocol::encodable(f)
            &&& after == written(before, f)
            &&& record_views(out@) == packet_records(before, f, steps)
        },
    }
}

/// Closing a closed session changes nothing and asks for nothing.
pub proof fn law_close_is_idempotent(s: SessionView)
    ensures
        close_effect(s).state.closed,
        close_effect(close_effect(s).state) == settled(close_effect(s).state),
{
}

/// A closed session has no open streams, and closing leaves none that bytes
/// could still be delivered to.
pub proof fn law_close_ends_every_stream(s: SessionView)
    requires
        consistent(s),
        !s.closed,
    ensures
        close_effect(s).state.streams.len() == 0,
        close_effect(s).state.receivers.len() == 0,
        forall|id: u32|
            #[trigger] s.streams.contains(id) ==> close_effect(s).actions.contains(
                ActionView::CloseStream { stream: id, error: ErrorView::SessionClosed },
            ) && close_effect(s).actions.contains(
                ActionView::Refused { stream: id, error: ErrorView::SessionClosed },
            ),
{
    let gone = s.streams;
    let keep = |x: u32| !gone.contains(x);
    s.receivers.filter_lemma(keep);
    let left = s.receivers.filter(keep);
    if left.len() > 0 {
        assert(keep(left[0]));
        assert(left.contains(left[0]));
        s.receivers.lemma_filter_contains_rev(keep, left[0]);
    }
    let e = close_effect(s).actions;
    assert forall|id: u32| #[trigger] s.streams.contains(id) implies e.contains(
        ActionView::CloseStream { stream: id, error: ErrorView::SessionClosed },
    ) && e.contains(ActionView::Refused { stream: id, error: ErrorView::SessionClosed }) by {
        lemma_endings(s.streams, id);
        let a = ActionView::CloseStream { stream: id, error: ErrorView::SessionClosed };
        let b = ActionView::Refused { stream: id, error: ErrorView::SessionClosed };
        let m = endings(s.streams);
        let i = choose|i: int| 0 <= i < m.len() && m[i] == a;
        let j = choose|j: int| 0 <= j < m.len() && m[j] == b;
        assert(e[i + 1] == a);
        assert(e[j + 1] == b);
    }
}

proof fn lemma_endings(ids: Seq<u32>, id: u32)
    requires
        ids.contains(id),
    ensures
        endings(ids).contains(
            ActionView::CloseStream { stream: id, error: ErrorView::SessionClosed },
        ),
        endings(ids).contains(ActionView::Refused { stream: id, error: ErrorView::SessionClosed }),
    decreases ids.len(),
{
    let a = ActionView::CloseStream { stream: id, error: ErrorView::SessionClosed };
    let b = ActionView::Refused { stream: id, error: ErrorView::SessionClosed };
    let e = endings(ids);
    if ids.last() == id {
        assert(e[e.len() - 2] == a);
        assert(e[e.len() - 1] == b);
    } else {
        let k = choose|k: int| 0 <= k < ids.len() && ids[k] == id;
        assert(ids.drop_last()[k] == id);
        lemma_endings(ids.drop_last(), id);
        let m = endings(ids.drop_last());
        let i = choose|i: int| 0 <= i < m.len() && m[i] == a;
        let j = choose|j: int| 0 <= j < m.len() && m[j] == b;
        assert(e[i] == a);
        assert(e[j] == b);
    }
}

/// A write that fails closes the session, whatever was open: nothing is delivered or
/// opened any more, and the loops that read and send end at their next turn.
pub proof fn law_failed_write_ends_the_session(s: SessionView, stream: u32, data: Seq<u8>)
    requires
        consistent(s),
    ensures
        close_effect(s).state.closed,
        !s.closed ==> close_effect(s).state.streams.len() == 0,
        !s.closed ==> close_effect(s).state.receivers.len() == 0,
        sending_effect(close_effect(s).state, StreamEventView::Data { stream, data }) == (
            close_effect(s).state,
            StreamStepView::Stop,
        ),
{
    if !s.closed {
        law_close_ends_every_stream(s);
    }
}

/// The frame for what a stream wrote: its end where it wrote nothing.
pub open spec fn frame_for(item: (u32, Seq<u8>)) -> FrameView {
    if item.1.len() == 0 {
        protocol::control(Command::Fin, item.0)
    } else {
        FrameView { cmd: Command::Push, stream_id: item.0, data: item.1 }
    }
}

/// The frame that a step writes.
pub open spec fn frame_written(step: StreamStepView) -> Seq<FrameView> {
    match step {
        StreamStepView::TryWrite(f) => seq![f],
        StreamStepView::Write(f) => seq![f],
        _ => Seq::empty(),
    }
}

/// What the loop does with what streams wrote, in order: the state that it leaves and
/// the frames that it writes.
pub open spec fn sent(s: SessionView, items: Seq<(u32, Seq<u8>)>) -> (SessionView, Seq<FrameView>)
    decreases items.len(),
{
    if items.len() == 0 {
        (s, Seq::empty())
    } else {
        let (before, frames) = sent(s, items.drop_last());
        let e = StreamEventView::Data { stream: items.last().0, data: items.last().1 };
        let (after, step) = sending_effect(before, e);
        (after, frames + frame_written(step))
    }
}

proof fn lemma_without_id(ids: Seq<u32>, id: u32, x: u32)
    ensures
        without_id(ids, id).contains(x) <==> ids.contains(x) && x != id,
{
    let gone = seq![id];
    let keep = |y: u32| !gone.contains(y);
    assert(gone[0] == id);
    ids.filter_lemma(keep);
    if without_id(ids, id).contains(x) {
        ids.lemma_filter_contains_rev(keep, x);
        let f = ids.filter(keep);
        let i = choose|i: int| 0 <= i < f.len() && f[i] == x;
        assert(keep(f[i]));
    }
    if ids.contains(x) && x != id {
        let i = choose|i: int| 0 <= i < ids.len() && ids[i] == x;
        assert(keep(ids[i]));
        assert(ids.filter(keep).contains(ids[i]));
    }
}

/// Each thing that a stream writes gives exactly one frame, in the order of writing:
/// its bytes, or its end where it wrote none. A stream that has ended is gone from the
/// session; the others stay as they are, and nothing else changes.
pub proof fn law_each_item_gives_one_frame(s: SessionView, items: Seq<(u32, Seq<u8>)>)
    requires
        !s.closed,
    ensures
        sent(s, items).1 == items.map_values(|i: (u32, Seq<u8>)| frame_for(i)),
        sent(s, items).0 == (SessionView {
            streams: sent(s, items).0.streams,
            receivers: sent(s, items).0.receivers,
            ..s
        }),
        forall|x: u32| #[trigger]
            sent(s, items).0.streams.contains(x) <==> s.streams.contains(x) && !ended(items, x),
        forall|x: u32| #[trigger]
            sent(s, items).0.receivers.contains(x) <==> s.receivers.contains(x) && !ended(items, x),
    decreases items.len(),
{
    let frames = items.map_values(|i: (u32, Seq<u8>)| frame_for(i));
    if items.len() == 0 {
        assert(frames =~= Seq::<FrameView>::empty());
    } else {
        let rest = items.drop_last();
        law_each_item_gives_one_frame(s, rest);
        let (before, _) = sent(s, rest);
        let (id, data) = items.last();
        assert(frames =~= rest.map_values(|i: (u32, Seq<u8>)| frame_for(i)) + seq![
            frame_for(items.last()),
        ]);
        assert forall|x: u32| ended(items, x) <==> ended(rest, x) || (id == x && data.len()
            == 0) by {
            if ended(rest, x) {
                let k = choose|k: int|
                    0 <= k < rest.len() && (#[trigger] rest[k]).0 == x && rest[k].1.len() == 0;
                assert(items[k] == rest[k]);
            }
            if id == x && data.len() == 0 {
                assert(items[items.len() - 1].0 == x);
            }
            if ended(items, x) {
                let k = choose|k: int|
                    0 <= k < items.len() && (#[trigger] items[k]).0 == x && items[k].1.len() == 0;
                if k < rest.len() {
                    assert(rest[k] == items[k]);
                }
            }
        }
        if data.len() == 0 {
            assert forall|x: u32| #[trigger]
                sent(s, items).0.streams.contains(x) <==> s.streams.contains(x) && !ended(
                    items,
                    x,
                ) by {
                lemma_without_id(before.streams, id, x);
            }
            assert forall|x: u32| #[trigger]
                sent(s, items).0.receivers.contains(x) <==> s.receivers.contains(x) && !ended(
                    items,
                    x,
                ) by {
                lemma_without_id(before.receivers, id, x);
            }
        }
    }
}

/// Whether a stream ended among what streams wrote.
pub open spec fn ended(items: Seq<(u32, Seq<u8>)>, stream: u32) -> bool {
    exists|k: int|
        0 <= k < items.len() && (#[trigger] items[k]).0 == stream && items[k].1.len() == 0
}

/// The loop that sends what streams write runs once in the life of a session: wherever
/// its first run is, a second start stops at once, writes nothing and changes nothing.
pub proof fn law_sending_starts_once(s: SessionView, items: Seq<(u32, Seq<u8>)>)
    ensures
        ({
            let started = sending_effect(s, StreamEventView::Start).0;
            let later = sent(started, items).0;
            &&& started.sending
            &&& sending_effect(later, StreamEventView::Start) == (later, StreamStepView::Stop)
            &&& frame_written(sending_effect(later, StreamEventView::Start).1).len() == 0
        }),
    decreases items.len(),
{
    if items.len() > 0 {
        law_sending_starts_once(s, items.drop_last());
    }
}

/// An alert is fatal: the session is closed, no stream stays open, and the
/// receive loop ends with an error.
pub proof fn law_alert_is_fatal(s: SessionView, f: FrameView, now: u64)
    requires
        f.cmd is Alert,
    ensures
        frame_effect(s, f, now).state.closed,
        frame_effect(s, f, now).state.streams.len() == 0,
        frame_effect(s, f, now).error is Some,
{
}

/// Only an alert ends the receive loop with an error.
pub proof fn law_only_alerts_fail(s: SessionView, f: FrameView, now: u64)
    requires
        !(f.cmd is Alert),
    ensures
        frame_effect(s, f, now).error is None,
        frame_effect(s, f, now).state.closed == s.closed,
{
}

/// A frame that one side may not send changes nothing: a client opens streams
/// and reports settings, a server acknowledges and sets schemes.
pub proof fn law_roles_are_kept(s: SessionView, f: FrameView, now: u64)
    requires
        s.is_client ==> f.cmd is Syn || f.cmd is Settings,
        !s.is_client ==> f.cmd is SynAck || f.cmd is ServerSettings || f.cmd is UpdatePaddingScheme,
    ensures
        frame_effect(s, f, now) == settled(s),
{
}

/// A stream that the peer ends is gone: bytes for it are dropped.
pub proof fn law_no_delivery_after_fin(s: SessionView, id: u32, data: Seq<u8>, now: u64)
    ensures
        ({
            let after = frame_effect(s, protocol::control(Command::Fin, id), now).state;
            let push = FrameView { cmd: Command::Push, stream_id: id, data };
            &&& !after.streams.contains(id)
            &&& !after.receivers.contains(id)
            &&& frame_effect(after, push, now) == settled(after)
        }),
{
    let gone = seq![id];
    let keep = |x: u32| !gone.contains(x);
    assert(gone[0] == id);
    s.streams.filter_lemma(keep);
    s.receivers.filter_lemma(keep);
    let a = s.streams.filter(keep);
    let b = s.receivers.filter(keep);
    if a.contains(id) {
        let i = choose|i: int| 0 <= i < a.len() && a[i] == id;
        assert(keep(a[i]));
    }
    if b.contains(id) {
        let i = choose|i: int| 0 <= i < b.len() && b[i] == id;
        assert(keep(b[i]));
    }
}

/// Opening and ending a stream leaves no trace: the lists are as before, so a
/// long session does not grow with the streams it has served.
pub proof fn law_streams_leave_no_trace(s: SessionView, id: u32, now: u64)
    requires
        !s.is_client,
        !s.streams.contains(id),
        !s.receivers.contains(id),
    ensures
        ({
            let opened = frame_effect(s, protocol::control(Command::Syn, id), now).state;
            let ended = frame_effect(opened, protocol::control(Command::Fin, id), now).state;
            ended == s
        }),
{
    lemma_removed_again(s.streams, id);
    lemma_removed_again(s.receivers, id);
}

proof fn lemma_removed_again(ids: Seq<u32>, id: u32)
    requires
        !ids.contains(id),
    ensures
        without_id(with_id(ids, id), id) == ids,
{
    let gone = seq![id];
    let keep = |x: u32| !gone.contains(x);
    reveal(Seq::filter);
    assert(gone[0] == id);
    assert(ids.push(id).drop_last() =~= ids);
    lemma_kept(ids, id, keep);
}

proof fn lemma_kept(ids: Seq<u32>, id: u32, keep: spec_fn(u32) -> bool)
    requires
        !ids.contains(id),
        forall|x: u32| #[trigger] keep(x) <==> x != id,
    ensures
        ids.filter(keep) == ids,
    decreases ids.len(),
{
    reveal(Seq::filter);
    if ids.len() > 0 {
        assert forall|i: int| 0 <= i < ids.len() - 1 implies ids.drop_last()[i] != id by {
            assert(ids[i] != id);
        }
        lemma_kept(ids.drop_last(), id, keep);
        assert(ids.last() != id);
        assert(ids =~= ids.drop_last().push(ids.last()));
    } else {
        assert(ids.filter(keep) =~= ids);
    }
}

/// A server remembers the version of its peer after the scheme that it owes it, so that
/// a scheme that cannot be written leaves the version as it was.
pub proof fn law_version_follows_the_scheme(s: SessionView, f: FrameView, now: u64)
    requires
        f.cmd is Settings,
    ensures
        ({
            let done = frame_effect(s, f, now);
            let scheme = ActionView::Write { frame: scheme_frame(s) };
            &&& done.state == s
            &&& forall|i: int|
                0 <= i < done.actions.len() && (#[trigger] done.actions[i]) is RememberVersion
                    ==> done.actions.take(i) == (if owes_scheme(s, settings_in(f.data)) {
                    seq![scheme]
                } else {
                    Seq::empty()
                })
        }),
{
    let done = frame_effect(s, f, now);
    let all = done.actions;
    let first = if owes_scheme(s, settings_in(f.data)) {
        seq![ActionView::Write { frame: scheme_frame(s) }]
    } else {
        Seq::empty()
    };
    assert forall|i: int|
        0 <= i < all.len() && (#[trigger] all[i]) is RememberVersion implies all.take(i) == first by {
        assert(all.take(i) =~= first);
    }
}

/// A request for a sign of life is answered on the same stream number, and the
/// answer sets the asker's clock; neither side closes.
pub proof fn law_heartbeat_round_trip(
    asker: SessionView,
    peer: SessionView,
    id: u32,
    t1: u64,
    t2: u64,
)
    ensures
        ({
            let asked = frame_effect(peer, protocol::control(Command::HeartRequest, id), t1);
            let reply = protocol::control(Command::HeartResponse, id);
            let heard = frame_effect(asker, reply, t2);
            &&& asked.actions == seq![ActionView::Write { frame: reply }]
            &&& asked.state == peer
            &&& asked.error is None
            &&& heard.state.closed == asker.closed
            &&& heard.error is None
            &&& asker.heartbeat matches Some(h) ==> heard.state.heartbeat == Some(
                HeartbeatState { last_received: t2, ..h },
            )
        }),
{
}

/// Padding loses nothing, changes nothing and reorders nothing. Whole frames that
/// go on the wire are read there in order, with only waste behind them and no bytes
/// left over. Where the side is a server, or the packet is past those that are
/// padded, or the plan for it is empty, the bytes go out as they are.
pub proof fn law_packets_carry_their_frames(
    s: SessionView,
    packet: Seq<u8>,
    steps: Seq<PadStep>,
) -> (waste: Seq<FrameView>)
    requires
        consistent(s),
        protocol::leftover(packet).len() == 0,
        forall|i: int|
            0 <= i < steps.len() ==> (#[trigger] steps[i] matches PadStep::Size(n) ==> n <= 65535),
    ensures
        ({
            let wire = wire_records(s, packet, steps).flatten();
            &&& wire == packet + protocol::encoded_all(waste)
            &&& protocol::frames(wire) == protocol::frames(packet) + waste
            &&& padding::only_waste(waste)
            &&& padding::without_waste(protocol::frames(wire)) == padding::without_waste(
                protocol::frames(packet),
            )
            &&& protocol::leftover(wire).len() == 0
            &&& !s.is_client || s.packets >= s.stop || steps.len() == 0 ==> wire == packet
        }),
{
    padding::law_padding_is_transparent(packet, steps);
    if !s.send_padding || s.packets >= s.stop || steps.len() == 0 {
        let none = Seq::<FrameView>::empty();
        seq![packet].lemma_flatten_one_element();
        assert(protocol::encoded_all(none) =~= Seq::<u8>::empty());
        assert(packet + protocol::encoded_all(none) =~= packet);
        assert(protocol::frames(packet) + none =~= protocol::frames(packet));
        none
    } else {
        padding::padding_frames(packet.len(), steps)
    }
}

/// The state after frames were written one after another, each with the plan for
/// its packet, and the records that went on the wire meanwhile.
pub open spec fn all_written(
    s: SessionView,
    fs: Seq<FrameView>,
    plans: Seq<Seq<PadStep>>,
) -> (SessionView, Seq<Seq<u8>>)
    decreases fs.len(),
{
    if fs.len() == 0 {
        (s, Seq::empty())
    } else {
        let had = all_written(s, fs.drop_last(), plans);
        (
            written(had.0, fs.last()),
            had.1 + packet_records(had.0, fs.last(), plans[fs.len() - 1]),
        )
    }
}

/// While frames are held back, any number of them can be written and nothing goes
/// on the wire. They stand in the buffer in order.
pub proof fn law_nothing_leaves_while_frames_are_held(
    s: SessionView,
    fs: Seq<FrameView>,
    plans: Seq<Seq<PadStep>>,
)
    requires
        s.buffering,
    ensures
        all_written(s, fs, plans) == (
            SessionView { buffer: s.buffer + protocol::encoded_all(fs), ..s },
            Seq::<Seq<u8>>::empty(),
        ),
    decreases fs.len(),
{
    if fs.len() == 0 {
        assert(s.buffer + protocol::encoded_all(fs) =~= s.buffer);
    } else {
        let less = fs.drop_last();
        law_nothing_leaves_while_frames_are_held(s, less, plans);
        lemma_encoded_push(less, fs.last());
        assert(less.push(fs.last()) =~= fs);
        assert(s.buffer + protocol::encoded_all(less) + protocol::encoded(fs.last()) =~= s.buffer
            + protocol::encoded_all(fs));
        assert(all_written(s, fs, plans).1 =~= Seq::<Seq<u8>>::empty());
    }
}

/// Frames that are held back go out once, in order, with the next frame after
/// frames are let through again. Until then nothing of them is on the wire. What is
/// sent is the bytes that stood in the buffer, those of each held frame and those of
/// the next frame, with only waste behind them, and nothing is held any longer.
pub proof fn law_held_frames_go_out_once(
    s: SessionView,
    fs: Seq<FrameView>,
    plans: Seq<Seq<PadStep>>,
    next: FrameView,
    steps: Seq<PadStep>,
) -> (waste: Seq<FrameView>)
    requires
        consistent(s),
        s.buffering,
        protocol::leftover(s.buffer).len() == 0,
        protocol::encodable(next) && protocol::canonical(next.cmd),
        forall|i: int|
            0 <= i < fs.len() ==> protocol::encodable(#[trigger] fs[i]) && protocol::canonical(
                fs[i].cmd,
            ),
        forall|i: int|
            0 <= i < steps.len() ==> (#[trigger] steps[i] matches PadStep::Size(n) ==> n <= 65535),
    ensures
        ({
            let held = all_written(s, fs, plans);
            let released = SessionView { buffering: false, ..held.0 };
            let wire = packet_records(released, next, steps).flatten();
            &&& held.1.len() == 0
            &&& wire == s.buffer + protocol::encoded_all(fs) + protocol::encoded(next)
                + protocol::encoded_all(waste)
            &&& padding::only_waste(waste)
            &&& protocol::frames(wire) == protocol::frames(s.buffer) + fs.push(next) + waste
            &&& protocol::leftover(wire).len() == 0
            &&& written(released, next).buffer.len() == 0
            &&& !written(released, next).buffering
        }),
{
    law_nothing_leaves_while_frames_are_held(s, fs, plans);
    let released = SessionView { buffering: false, ..all_written(s, fs, plans).0 };
    let sent = fs.push(next);
    let tail = protocol::encoded_all(sent);
    let packet = released.buffer + protocol::encoded(next);
    lemma_encoded_push(fs, next);
    assert(packet =~= s.buffer + tail);
    assert forall|i: int| 0 <= i < sent.len() implies protocol::encodable(#[trigger] sent[i])
        && protocol::canonical(sent[i].cmd) by {
        if i < fs.len() {
            assert(sent[i] == fs[i]);
        }
    }
    let none = Seq::<u8>::empty();
    protocol::law_frames_round_trip(sent, none);
    assert(tail + none =~= tail);
    assert(sent + protocol::frames(none) =~= sent);
    protocol::law_pieces_give_the_same_frames(s.buffer, tail);
    assert(protocol::leftover(s.buffer) + tail =~= tail);
    law_packets_carry_their_frames(released, packet, steps)
}

proof fn lemma_encoded_push(fs: Seq<FrameView>, f: FrameView)
    ensures
        protocol::encoded_all(fs.push(f)) == protocol::encoded_all(fs) + protocol::encoded(f),
    decreases fs.len(),
{
    let all = fs.push(f);
    if fs.len() == 0 {
        assert(all.skip(1) =~= Seq::<FrameView>::empty());
        assert(all[0] == f);
        assert(protocol::encoded_all(all.skip(1)) =~= Seq::<u8>::empty());
        assert(protocol::encoded_all(all) =~= protocol::encoded(f));
        assert(protocol::encoded_all(fs) + protocol::encoded(f) =~= protocol::encoded(f));
    } else {
        assert(all.skip(1) =~= fs.skip(1).push(f));
        lemma_encoded_push(fs.skip(1), f);
        assert(protocol::encoded_all(all) =~= protocol::encoded_all(fs) + protocol::encoded(f));
    }
}

} // verus!
