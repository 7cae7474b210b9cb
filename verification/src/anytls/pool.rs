//! The pool of idle sessions that new streams are opened on.

use vstd::prelude::*;

verus! {

/// When idle sessions are looked at and how long they are kept. The times are
/// in milliseconds.
#[derive(Clone, Copy, Debug, PartialEq, Eq, Structural)]
pub struct SessionPoolConfig {
    /// Interval for checking idle sessions.
    pub check_interval: u64,
    /// Idle timeout for sessions.
    pub idle_timeout: u64,
    /// Minimum number of idle sessions to keep.
    pub min_idle_sessions: usize,
}

/// Every 30 seconds, after 60 seconds, and never the last session.
pub open spec fn default_config() -> SessionPoolConfig {
    SessionPoolConfig { check_interval: 30_000, idle_timeout: 60_000, min_idle_sessions: 1 }
}

impl Default for SessionPoolConfig {
    fn default() -> (c: SessionPoolConfig)
        ensures
            c == default_config(),
    {
        SessionPoolConfig { check_interval: 30_000, idle_timeout: 60_000, min_idle_sessions: 1 }
    }
}

/// A session in the pool: its sequence number and since when it is idle.
#[derive(Clone, Copy, Debug, PartialEq, Eq, Structural)]
pub struct PooledSession {
    pub seq: u64,
    pub idle_since: u64,
}

/// What a session reports of itself.
#[derive(Clone, Copy, Debug, PartialEq, Eq, Structural)]
pub struct SessionStatus {
    pub closed: bool,
    pub active_streams: bool,
}

/// Sessions for reuse, oldest first.
pub struct SessionPool {
    idle: Vec<PooledSession>,
    next: u64,
    config: SessionPoolConfig,
}

/// The state of a pool.
pub struct PoolView {
    pub idle: Seq<PooledSession>,
    pub next: u64,
    pub config: SessionPoolConfig,
}

impl View for SessionPool {
    type V = PoolView;

    closed spec fn view(&self) -> PoolView {
        PoolView { idle: self.idle@, next: self.next, config: self.config }
    }
}

/// Sessions in ascending order of their numbers, each number once.
pub open spec fn ordered(idle: Seq<PooledSession>) -> bool {
    forall|i: int, j: int| 0 <= i < j < idle.len() ==> (#[trigger] idle[i]).seq < (#[trigger] idle[j]).seq
}

/// The position of the newest session that is not closed.
pub open spec fn newest_live(status: Seq<SessionStatus>) -> Option<int>
    decreases status.len(),
{
    if status.len() == 0 {
        None
    } else if !status.last().closed {
        Some(status.len() - 1)
    } else {
        newest_live(status.drop_last())
    }
}

/// The pool after a session was asked for: the newest live session starts a new
/// idle time, and the closed ones in front of it are gone.
pub open spec fn after_get(idle: Seq<PooledSession>, status: Seq<SessionStatus>, now: u64) -> Seq<
    PooledSession,
> {
    match newest_live(status) {
        Some(i) => idle.take(i).push(PooledSession { seq: idle[i].seq, idle_since: now }),
        None => Seq::empty(),
    }
}

/// The pool with a session put under its number.
pub open spec fn after_add(idle: Seq<PooledSession>, s: PooledSession) -> Seq<PooledSession>
    decreases idle.len(),
{
    if idle.len() == 0 || idle.last().seq < s.seq {
        idle.push(s)
    } else if idle.last().seq == s.seq {
        idle.drop_last().push(s)
    } else {
        after_add(idle.drop_last(), s).push(idle.last())
    }
}

/// How long a session has been idle.
pub open spec fn idle_for(s: PooledSession, now: u64) -> int {
    if now > s.idle_since {
        now - s.idle_since
    } else {
        0
    }
}

/// What a cleanup makes of the sessions: those it keeps and those it retires.
pub struct Sweep {
    pub kept: Seq<PooledSession>,
    pub retired: Seq<u64>,
}

/// Goes through the sessions from the oldest to the newest. Closed sessions
/// are retired. A session stays while it carries streams, while its idle time
/// is below the timeout, or where fewer than the minimum have stayed.
pub open spec fn sweep(
    idle: Seq<PooledSession>,
    status: Seq<SessionStatus>,
    now: u64,
    config: SessionPoolConfig,
) -> Sweep
    decreases idle.len(),
{
    if idle.len() == 0 {
        Sweep { kept: Seq::empty(), retired: Seq::empty() }
    } else {
        let before = sweep(idle.drop_last(), status, now, config);
        let s = idle.last();
        let st = status[idle.len() - 1];
        if !st.closed && (st.active_streams || idle_for(s, now) < config.idle_timeout
            || before.kept.len() < config.min_idle_sessions) {
            Sweep { kept: before.kept.push(s), retired: before.retired }
        } else {
            Sweep { kept: before.kept, retired: before.retired.push(s.seq) }
        }
    }
}

impl SessionPool {
    /// What holds of every pool.
    pub open spec fn wf(&self) -> bool {
        ordered(self@.idle)
    }

    /// An empty pool with the default configuration.
    pub fn new() -> (p: SessionPool)
        ensures
            p.wf(),
            p@ == (PoolView { idle: Seq::empty(), next: 1, config: default_config() }),
    {
        SessionPool::with_config(SessionPoolConfig::default())
    }

    /// An empty pool.
    pub fn with_config(config: SessionPoolConfig) -> (p: SessionPool)
        ensures
            p.wf(),
            p@ == (PoolView { idle: Seq::empty(), next: 1, config }),
    {
        SessionPool { idle: Vec::new(), next: 1, config }
    }

    /// The next sequence number.
    pub fn next_seq(&mut self) -> (r: u64)
        requires
            old(self).wf(),
        ensures
            final(self).wf(),
            r == old(self)@.next,
            final(self)@ == (PoolView {
                next: if r == u64::MAX {
                    0
                } else {
                    (r + 1) as u64
                },
                ..old(self)@
            }),
    {
        let r: u64 = self.next;
        self.next = r.wrapping_add(1);
        r
    }

    /// The number of idle sessions.
    pub fn idle_count(&self) -> (n: usize)
        ensures
            n == self@.idle.len(),
    {
        self.idle.len()
    }

    /// The sequence numbers of the idle sessions, oldest first.
    pub fn idle_seqs(&self) -> (out: Vec<u64>)
        ensures
            out@ == self@.idle.map_values(|s: PooledSession| s.seq),
    {
        let mut out: Vec<u64> = Vec::new();
        let mut i: usize = 0;
        while i < self.idle.len()
            invariant
                i <= self.idle@.len(),
                out@ == self.idle@.take(i as int).map_values(|s: PooledSession| s.seq),
            decreases self.idle@.len() - i,
        {
            out.push(self.idle[i].seq);
            assert(out@ =~= self.idle@.take(i + 1).map_values(|s: PooledSession| s.seq));
            i += 1;
        }
        assert(self.idle@.take(i as int) == self.idle@);
        out
    }

    /// The newest live session for reuse. It stays in the pool, because many
    /// streams share one session. `status` tells of each idle session, oldest
    /// first.
    pub fn get_idle_session(&mut self, status: &Vec<SessionStatus>, now: u64) -> (r: Option<u64>)
        requires
            old(self).wf(),
            status@.len() == old(self)@.idle.len(),
        ensures
            final(self).wf(),
            final(self)@ == (PoolView {
                idle: after_get(old(self)@.idle, status@, now),
                ..old(self)@
            }),
            r == (match newest_live(status@) {
                Some(i) => Some(old(self)@.idle[i].seq),
                None => None,
            }),
    {
        let ghost idle = self.idle@;
        let mut n: usize = status.len();
        assert(status@.take(n as int) == status@);
        while n > 0 && status[n - 1].closed
            invariant
                n <= status@.len(),
                newest_live(status@) == newest_live(status@.take(n as int)),
            decreases n,
        {
            assert(status@.take(n as int).drop_last() == status@.take(n - 1));
            n -= 1;
        }
        if n == 0 {
            self.idle = Vec::new();
            return None;
        }
        let i: usize = n - 1;
        assert(newest_live(status@) == Some(i as int));
        let seq: u64 = self.idle[i].seq;
        self.idle.truncate(i);
        assert(self.idle@ =~= idle.take(i as int));
        self.idle.push(PooledSession { seq, idle_since: now });
        Some(seq)
    }

    /// Puts a session into the pool, unless it is closed.
    pub fn add_idle_session(&mut self, seq: u64, closed: bool, now: u64)
        requires
            old(self).wf(),
        ensures
            final(self).wf(),
            final(self)@ == (PoolView {
                idle: if closed {
                    old(self)@.idle
                } else {
                    after_add(old(self)@.idle, PooledSession { seq, idle_since: now })
                },
                ..old(self)@
            }),
    {
        if closed {
            return;
        }
        let ghost idle = self.idle@;
        let s = PooledSession { seq, idle_since: now };
        let mut n: usize = self.idle.len();
        assert(idle.take(n as int) == idle);
        assert(after_add(idle, s) =~= after_add(idle.take(n as int), s) + idle.skip(n as int));
        while n > 0 && self.idle[n - 1].seq > seq
            invariant
                self.idle@ == idle,
                s == (PooledSession { seq, idle_since: now }),
                n <= idle.len(),
                after_add(idle, s) == after_add(idle.take(n as int), s) + idle.skip(n as int),
                forall|j: int| n <= j < idle.len() ==> (#[trigger] idle[j]).seq > seq,
            decreases n,
        {
            assert(idle.take(n as int).drop_last() == idle.take(n - 1));
            assert(after_add(idle.take(n - 1), s).push(idle[n - 1]) + idle.skip(n as int)
                =~= after_add(idle.take(n - 1), s) + idle.skip(n - 1));
            n -= 1;
        }
        if n > 0 && self.idle[n - 1].seq == seq {
            assert(idle.take(n as int).drop_last() == idle.take(n - 1));
            assert(idle.take(n - 1).push(s) + idle.skip(n as int) =~= idle.update(n - 1, s));
            self.idle.set(n - 1, s);
        } else {
            assert(idle.take(n as int).push(s) + idle.skip(n as int) =~= idle.insert(n as int, s));
            self.idle.insert(n, s);
        }
        proof {
            lemma_add_keeps_order(idle, s);
        }
    }

    /// Retires expired sessions and gives their numbers, which the caller
    /// closes. `status` tells of each idle session, oldest first.
    pub fn cleanup_expired(&mut self, status: &Vec<SessionStatus>, now: u64) -> (retired: Vec<u64>)
        requires
            old(self).wf(),
            status@.len() == old(self)@.idle.len(),
        ensures
            final(self).wf(),
            final(self)@ == (PoolView {
                idle: sweep(old(self)@.idle, status@, now, old(self)@.config).kept,
                ..old(self)@
            }),
            retired@ == sweep(old(self)@.idle, status@, now, old(self)@.config).retired,
    {
        let ghost idle = self.idle@;
        let config = self.config;
        let mut kept: Vec<PooledSession> = Vec::new();
        let mut retired: Vec<u64> = Vec::new();
        let mut i: usize = 0;
        while i < self.idle.len()
            invariant
                self.idle@ == idle,
                status@.len() == idle.len(),
                i <= idle.len(),
                sweep(idle.take(i as int), status@, now, config) == (Sweep {
                    kept: kept@,
                    retired: retired@,
                }),
            decreases idle.len() - i,
        {
            let s = self.idle[i];
            let st = status[i];
            assert(idle.take(i + 1).drop_last() == idle.take(i as int));
            let idle_time: u64 = now.saturating_sub(s.idle_since);
            if !st.closed && (st.active_streams || idle_time < config.idle_timeout || kept.len()
                < config.min_idle_sessions) {
                kept.push(s);
            } else {
                retired.push(s.seq);
            }
            i += 1;
        }
        assert(idle.take(i as int) == idle);
        proof {
            lemma_sweep_keeps_order(idle, status@, now, config);
        }
        self.idle = kept;
        retired
    }
}

proof fn lemma_add_keeps_order(idle: Seq<PooledSession>, s: PooledSession)
    requires
        ordered(idle),
    ensures
        ordered(after_add(idle, s)),
        forall|k: int|
            0 <= k < after_add(idle, s).len() ==> (#[trigger] after_add(idle, s)[k]).seq <= s.seq
                || exists|j: int| 0 <= j < idle.len() && idle[j] == after_add(idle, s)[k],
    decreases idle.len(),
{
    if idle.len() > 0 && idle.last().seq > s.seq {
        lemma_add_keeps_order(idle.drop_last(), s);
        let m = after_add(idle.drop_last(), s);
        let all = after_add(idle, s);
        assert forall|k: int| 0 <= k < m.len() implies (#[trigger] m[k]).seq < idle.last().seq by {
            if m[k].seq > s.seq {
                let j = choose|j: int| 0 <= j < idle.drop_last().len() && idle.drop_last()[j] == m[k];
                assert(idle[j].seq < idle[idle.len() - 1].seq);
            }
        }
        assert forall|k: int| 0 <= k < all.len() implies (#[trigger] all[k]).seq <= s.seq || exists|
            j: int,
        | 0 <= j < idle.len() && idle[j] == all[k] by {
            if k < m.len() {
                assert(all[k] == m[k]);
                if m[k].seq > s.seq {
                    let j = choose|j: int|
                        0 <= j < idle.drop_last().len() && idle.drop_last()[j] == m[k];
                    assert(idle[j] == all[k]);
                }
            } else {
                assert(all[k] == idle[idle.len() - 1]);
            }
        }
    } else if idle.len() > 0 {
        let all = after_add(idle, s);
        assert forall|k: int| 0 <= k < all.len() implies (#[trigger] all[k]).seq <= s.seq by {
            if k < all.len() - 1 {
                assert(all[k] == idle[k]);
                if k < idle.len() - 1 {
                    assert(idle[k].seq < idle[idle.len() - 1].seq);
                }
            }
        }
        assert forall|i: int, j: int| 0 <= i < j < all.len() implies (#[trigger] all[i]).seq < (
        #[trigger] all[j]).seq by {
            if j < all.len() - 1 {
                assert(idle[i].seq < idle[j].seq);
            } else if i < idle.len() - 1 {
                assert(idle[i].seq < idle[idle.len() - 1].seq);
            }
        }
    }
}

proof fn lemma_sweep_keeps_order(
    idle: Seq<PooledSession>,
    status: Seq<SessionStatus>,
    now: u64,
    config: SessionPoolConfig,
)
    requires
        ordered(idle),
    ensures
        ordered(sweep(idle, status, now, config).kept),
        forall|k: int|
            0 <= k < sweep(idle, status, now, config).kept.len() ==> idle.contains(
                #[trigger] sweep(idle, status, now, config).kept[k],
            ),
    decreases idle.len(),
{
    if idle.len() > 0 {
        let before = sweep(idle.drop_last(), status, now, config).kept;
        let kept = sweep(idle, status, now, config).kept;
        assert(ordered(idle.drop_last())) by {
            assert forall|i: int, j: int| 0 <= i < j < idle.len() - 1 implies (
            #[trigger] idle.drop_last()[i]).seq < (#[trigger] idle.drop_last()[j]).seq by {
                assert(idle[i].seq < idle[j].seq);
            }
        }
        lemma_sweep_keeps_order(idle.drop_last(), status, now, config);
        assert forall|k: int| 0 <= k < before.len() implies idle.contains(#[trigger] before[k])
            && before[k].seq < idle.last().seq by {
            assert(idle.drop_last().contains(before[k]));
            let j = choose|j: int|
                0 <= j < idle.drop_last().len() && idle.drop_last()[j] == before[k];
            assert(idle[j] == before[k]);
            assert(idle[j].seq < idle[idle.len() - 1].seq);
        }
        assert(idle[idle.len() - 1] == idle.last());
        assert forall|k: int| 0 <= k < kept.len() implies idle.contains(#[trigger] kept[k]) by {
            if k < before.len() {
                assert(kept[k] == before[k]);
            }
        }
    }
}

/// The session that is handed out is live, every newer one is closed, and none
/// is handed out only where all are closed.
pub proof fn law_newest_live_session(status: Seq<SessionStatus>)
    ensures
        (match newest_live(status) {
            Some(i) => {
                &&& 0 <= i < status.len()
                &&& !status[i].closed
                &&& forall|j: int| i < j < status.len() ==> (#[trigger] status[j]).closed
            },
            None => forall|j: int| 0 <= j < status.len() ==> (#[trigger] status[j]).closed,
        }),
    decreases status.len(),
{
    if status.len() > 0 && status.last().closed {
        law_newest_live_session(status.drop_last());
        let n = status.len() - 1;
        assert(status[n].closed);
        match newest_live(status) {
            Some(i) => {
                assert(status.drop_last()[i] == status[i]);
                assert forall|j: int| i < j < status.len() implies (#[trigger] status[j]).closed by {
                    if j < n {
                        assert(status.drop_last()[j].closed);
                    }
                }
            },
            None => {
                assert forall|j: int| 0 <= j < status.len() implies (
                #[trigger] status[j]).closed by {
                    if j < n {
                        assert(status.drop_last()[j].closed);
                    }
                }
            },
        }
    }
}

/// A session that was handed out stays in the pool and counts as idle from that
/// moment on.
pub proof fn law_reused_session_stays(
    idle: Seq<PooledSession>,
    status: Seq<SessionStatus>,
    now: u64,
)
    requires
        status.len() == idle.len(),
    ensures
        newest_live(status) matches Some(i) ==> after_get(idle, status, now).contains(
            PooledSession { seq: idle[i].seq, idle_since: now },
        ),
{
    law_newest_live_session(status);
    if let Some(i) = newest_live(status) {
        let after = after_get(idle, status, now);
        assert(after[i] == (PooledSession { seq: idle[i].seq, idle_since: now }));
    }
}

/// A cleanup spares every live session that carries streams or whose idle time
/// is below the timeout.
pub proof fn law_cleanup_spares_sessions_in_use(
    idle: Seq<PooledSession>,
    status: Seq<SessionStatus>,
    now: u64,
    config: SessionPoolConfig,
    i: int,
)
    requires
        0 <= i < idle.len() == status.len(),
        !status[i].closed,
        status[i].active_streams || idle_for(idle[i], now) < config.idle_timeout,
    ensures
        sweep(idle, status, now, config).kept.contains(idle[i]),
{
    lemma_spared(idle, status, now, config, i);
}

proof fn lemma_spared(
    idle: Seq<PooledSession>,
    status: Seq<SessionStatus>,
    now: u64,
    config: SessionPoolConfig,
    i: int,
)
    requires
        0 <= i < idle.len() <= status.len(),
        !status[i].closed,
        status[i].active_streams || idle_for(idle[i], now) < config.idle_timeout,
    ensures
        sweep(idle, status, now, config).kept.contains(idle[i]),
    decreases idle.len(),
{
    let kept = sweep(idle, status, now, config).kept;
    if i == idle.len() - 1 {
        assert(kept.last() == idle[i]);
        assert(kept[kept.len() - 1] == idle[i]);
    } else {
        lemma_spared(idle.drop_last(), status, now, config, i);
        let before = sweep(idle.drop_last(), status, now, config).kept;
        let k = choose|k: int| 0 <= k < before.len() && before[k] == idle.drop_last()[i];
        assert(kept[k] == idle[i]);
    }
}

/// A cleanup retires every closed session.
pub proof fn law_cleanup_retires_closed_sessions(
    idle: Seq<PooledSession>,
    status: Seq<SessionStatus>,
    now: u64,
    config: SessionPoolConfig,
    i: int,
)
    requires
        0 <= i < idle.len() == status.len(),
        status[i].closed,
    ensures
        sweep(idle, status, now, config).retired.contains(idle[i].seq),
{
    lemma_retired(idle, status, now, config, i);
}

proof fn lemma_retired(
    idle: Seq<PooledSession>,
    status: Seq<SessionStatus>,
    now: u64,
    config: SessionPoolConfig,
    i: int,
)
    requires
        0 <= i < idle.len() <= status.len(),
        status[i].closed,
    ensures
        sweep(idle, status, now, config).retired.contains(idle[i].seq),
    decreases idle.len(),
{
    let retired = sweep(idle, status, now, config).retired;
    if i == idle.len() - 1 {
        assert(retired[retired.len() - 1] == idle[i].seq);
    } else {
        lemma_retired(idle.drop_last(), status, now, config, i);
        let before = sweep(idle.drop_last(), status, now, config).retired;
        let k = choose|k: int| 0 <= k < before.len() && before[k] == idle.drop_last()[i].seq;
        assert(retired[k] == idle[i].seq);
    }
}

/// The number of live sessions among the first `n`.
pub open spec fn live_count(status: Seq<SessionStatus>, n: nat) -> nat
    decreases n,
{
    if n == 0 {
        0
    } else {
        live_count(status, (n - 1) as nat) + if status[n - 1].closed {
            0nat
        } else {
            1nat
        }
    }
}

/// A cleanup leaves the configured minimum of sessions, or all live ones where
/// there are fewer; and each session is either kept or retired.
pub proof fn law_cleanup_keeps_the_minimum(
    idle: Seq<PooledSession>,
    status: Seq<SessionStatus>,
    now: u64,
    config: SessionPoolConfig,
)
    ensures
        ({
            let s = sweep(idle, status, now, config);
            let live = live_count(status, idle.len());
            &&& s.kept.len() >= config.min_idle_sessions || s.kept.len() == live
            &&& s.kept.len() <= live
            &&& s.kept.len() + s.retired.len() == idle.len()
        }),
    decreases idle.len(),
{
    if idle.len() > 0 {
        law_cleanup_keeps_the_minimum(idle.drop_last(), status, now, config);
    }
}

} // verus!
