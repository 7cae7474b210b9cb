//! What holds of proxies that are reached through other proxies.

use crate::config::proxy_registry;
use crate::config::proxy_registry::{Dialing, Names, NodeView, RegView};
use crate::config::yaml::Options;
use vstd::prelude::*;

verus! {

/// A proxy and the dialer that it asks for.
pub type Edge = (Seq<char>, Seq<char>);

/// No two edges are of one proxy.
pub open spec fn one_dialer_each(edges: Seq<Edge>) -> bool {
    forall|i: int, j: int|
        0 <= i < j < edges.len() ==> (#[trigger] edges[i]).0 != (#[trigger] edges[j]).0
}

/// The proxy is wrapped around what it was, and reached through what its dialer
/// is in the end; where it or its dialer does not exist, it is as it was.
pub open spec fn dialed(was: RegView, now: RegView, e: Edge) -> bool {
    match (proxy_registry::lookup(was.names, e.0), proxy_registry::lookup(now.names, e.1)) {
        (Some(inner), Some(dialer)) => match proxy_registry::lookup(now.names, e.0) {
            Some(id) => 0 <= id < now.nodes.len() && now.nodes[id] == (NodeView::Dialed {
                inner,
                dialer,
            }),
            None => false,
        },
        _ => proxy_registry::lookup(now.names, e.0) == proxy_registry::lookup(was.names, e.0),
    }
}

/// What a name stands for once one was bound.
pub proof fn lemma_lookup_bind(names: Names, n: Seq<char>, id: int, x: Seq<char>)
    ensures
        proxy_registry::lookup(proxy_registry::bind(names, n, id), x) == (if x == n {
            Some(id)
        } else {
            proxy_registry::lookup(names, x)
        }),
    decreases names.len(),
{
    if proxy_registry::keys(names).contains(n) {
        lemma_lookup_rebound(names, n, id, x);
    } else {
        assert(proxy_registry::bind(names, n, id).drop_last() =~= names);
    }
}

proof fn lemma_lookup_rebound(names: Names, n: Seq<char>, id: int, x: Seq<char>)
    requires
        proxy_registry::keys(names).contains(n),
    ensures
        proxy_registry::lookup(proxy_registry::bind(names, n, id), x) == (if x == n {
            Some(id)
        } else {
            proxy_registry::lookup(names, x)
        }),
    decreases names.len(),
{
    let rest = names.drop_last();
    let b = proxy_registry::bind(names, n, id);
    if proxy_registry::keys(rest).contains(n) {
        lemma_lookup_rebound(rest, n, id, x);
        assert(b.drop_last() =~= proxy_registry::bind(rest, n, id));
    } else {
        assert forall|i: int| 0 <= i < rest.len() implies rest[i].0 != n by {
            assert(proxy_registry::keys(rest)[i] == rest[i].0);
        }
        let i = choose|i: int| 0 <= i < proxy_registry::keys(names).len() && proxy_registry::keys(names)[i] == n;
        assert(names[i].0 == n);
        assert(i == names.len() - 1) by {
            if i < rest.len() {
                assert(rest[i] == names[i]);
            }
        }
        assert(b.drop_last() =~= rest);
    }
}

/// What holds between two attempts: names that are not settled are as they were,
/// and settled ones have their dialers in their last form.
spec fn sound(u: RegView, s: Dialing, edges: Seq<Edge>, needs: Seq<Seq<char>>) -> bool {
    &&& forall|n: Seq<char>|
        !s.settled.contains(n) ==> #[trigger] proxy_registry::lookup(s.reg.names, n)
            == proxy_registry::lookup(u.names, n)
    &&& forall|i: int|
        0 <= i < edges.len() && s.settled.contains((#[trigger] edges[i]).0) ==> dialed(
            u,
            s.reg,
            edges[i],
        ) && !proxy_registry::must_wait(edges[i].1, needs, s.settled)
    &&& forall|k: int| 0 <= k < s.settled.len() ==> needs.contains(#[trigger] s.settled[k])
}

proof fn lemma_step(u: RegView, s: Dialing, edges: Seq<Edge>, needs: Seq<Seq<char>>, e: Edge)
    requires
        sound(u, s, edges, needs),
        one_dialer_each(edges),
        needs == proxy_registry::askers(edges),
        edges.contains(e),
        e.0 != e.1,
        !s.settled.contains(e.0),
    ensures
        sound(u, proxy_registry::dial_one(s, e, needs), edges, needs),
{
    let t = proxy_registry::dial_one(s, e, needs);
    if !proxy_registry::must_wait(e.1, needs, s.settled) {
        let m = choose|m: int| 0 <= m < edges.len() && edges[m] == e;
        assert(needs[m] == e.0);
        assert forall|n: Seq<char>| #[trigger] t.settled.contains(n) <==> (s.settled.contains(n)
            || n == e.0) by {
            if s.settled.contains(n) {
                let k = choose|k: int| 0 <= k < s.settled.len() && s.settled[k] == n;
                assert(t.settled[k] == n);
            }
            if n == e.0 {
                assert(t.settled[s.settled.len() as int] == n);
            }
        }
        let id = s.reg.nodes.len() as int;
        assert forall|n: Seq<char>| n != e.0 implies proxy_registry::lookup(t.reg.names, n)
            == #[trigger] proxy_registry::lookup(s.reg.names, n) by {
            lemma_lookup_bind(s.reg.names, e.0, id, n);
        }
        assert forall|n: Seq<char>| !t.settled.contains(n) implies #[trigger] proxy_registry::lookup(
            t.reg.names,
            n,
        ) == proxy_registry::lookup(u.names, n) by {
            assert(proxy_registry::lookup(t.reg.names, n) == proxy_registry::lookup(s.reg.names, n));
        }
        assert(proxy_registry::lookup(s.reg.names, e.0) == proxy_registry::lookup(u.names, e.0));
        assert(dialed(u, t.reg, e)) by {
            lemma_lookup_bind(s.reg.names, e.0, id, e.0);
            lemma_lookup_bind(s.reg.names, e.0, id, e.1);
            assert(proxy_registry::lookup(t.reg.names, e.1) == proxy_registry::lookup(s.reg.names, e.1));
        }
        assert forall|i: int|
            0 <= i < edges.len() && t.settled.contains((#[trigger] edges[i]).0) implies dialed(
            u,
            t.reg,
            edges[i],
        ) && !proxy_registry::must_wait(edges[i].1, needs, t.settled) by {
            let f = edges[i];
            if f.0 == e.0 {
                assert(i == m) by {
                    if i < m {
                        assert(edges[i].0 != edges[m].0);
                    } else if m < i {
                        assert(edges[m].0 != edges[i].0);
                    }
                }
            } else {
                assert(s.settled.contains(f.0));
                assert(f.1 != e.0) by {
                    if f.1 == e.0 {
                        assert(needs.contains(e.0));
                    }
                }
                assert(proxy_registry::lookup(t.reg.names, f.1) == proxy_registry::lookup(s.reg.names, f.1));
                assert(proxy_registry::lookup(t.reg.names, f.0) == proxy_registry::lookup(s.reg.names, f.0));
            }
        }
        assert forall|k: int| 0 <= k < t.settled.len() implies needs.contains(
            #[trigger] t.settled[k],
        ) by {
            if k < s.settled.len() {
                assert(t.settled[k] == s.settled[k]);
            }
        }
    }
}

/// What holds of the edges that are still to be tried.
spec fn untried(s: Dialing, list: Seq<Edge>, edges: Seq<Edge>) -> bool {
    &&& one_dialer_each(list)
    &&& forall|k: int|
        0 <= k < list.len() ==> edges.contains(#[trigger] list[k]) && !s.settled.contains(list[k].0)
}

/// Whether every edge is settled, waits, or is in a list.
spec fn accounted(s: Dialing, list: Seq<Edge>, edges: Seq<Edge>) -> bool {
    forall|i: int|
        0 <= i < edges.len() ==> s.settled.contains((#[trigger] edges[i]).0) || s.waiting.contains(
            edges[i],
        ) || list.contains(edges[i])
}

proof fn lemma_pass(
    u: RegView,
    s: Dialing,
    list: Seq<Edge>,
    rest: Seq<Edge>,
    edges: Seq<Edge>,
    needs: Seq<Seq<char>>,
)
    requires
        sound(u, s, edges, needs),
        one_dialer_each(edges),
        needs == proxy_registry::askers(edges),
        forall|i: int| 0 <= i < edges.len() ==> (#[trigger] edges[i]).0 != edges[i].1,
        s.waiting.len() == 0,
        untried(s, list + rest, edges),
        accounted(s, list + rest, edges),
    ensures
        ({
            let t = proxy_registry::dial_pass(s, list, needs);
            &&& sound(u, t, edges, needs)
            &&& untried(t, t.waiting + rest, edges)
            &&& accounted(t, rest, edges)
            &&& t.waiting.len() <= list.len()
            &&& t.waiting.len() == list.len() ==> t.settled == s.settled
            &&& t.settled.len() - s.settled.len() == list.len() - t.waiting.len()
        }),
    decreases list.len(),
{
    if list.len() == 0 {
        assert(list + rest =~= s.waiting + rest);
        assert(list + rest =~= rest);
    } else {
        let front = list.drop_last();
        let e = list.last();
        let tail = seq![e] + rest;
        assert(front + tail =~= list + rest);
        lemma_pass(u, s, front, tail, edges, needs);
        let m = proxy_registry::dial_pass(s, front, needs);
        let t = proxy_registry::dial_pass(s, list, needs);
        let all = m.waiting + tail;
        let n = m.waiting.len() as int;
        assert(all[n] == e);
        assert(edges.contains(e));
        assert(!m.settled.contains(e.0));
        lemma_step(u, m, edges, needs, e);
        assert(t == proxy_registry::dial_one(m, e, needs));
        let new = t.waiting + rest;
        if proxy_registry::must_wait(e.1, needs, m.settled) {
            assert(new =~= all);
            assert forall|i: int| 0 <= i < edges.len() implies t.settled.contains(
                (#[trigger] edges[i]).0,
            ) || t.waiting.contains(edges[i]) || rest.contains(edges[i]) by {
                let f = edges[i];
                if m.waiting.contains(f) {
                    let k = choose|k: int| 0 <= k < m.waiting.len() && m.waiting[k] == f;
                    assert(t.waiting[k] == f);
                } else if tail.contains(f) {
                    let k = choose|k: int| 0 <= k < tail.len() && tail[k] == f;
                    if k == 0 {
                        assert(t.waiting[n] == f);
                    } else {
                        assert(rest[k - 1] == f);
                    }
                }
            }
        } else {
            assert forall|i: int, j: int| 0 <= i < j < new.len() implies (#[trigger] new[i]).0 != (
            #[trigger] new[j]).0 by {
                let a = if i < n {
                    i
                } else {
                    i + 1
                };
                let b = if j < n {
                    j
                } else {
                    j + 1
                };
                assert(new[i] == all[a]);
                assert(new[j] == all[b]);
            }
            assert forall|k: int| 0 <= k < new.len() implies edges.contains(#[trigger] new[k])
                && !t.settled.contains(new[k].0) by {
                let a = if k < n {
                    k
                } else {
                    k + 1
                };
                assert(new[k] == all[a]);
                assert(all[a].0 != all[n].0);
                if t.settled.contains(new[k].0) {
                    let q = choose|q: int| 0 <= q < t.settled.len() && t.settled[q] == new[k].0;
                    if q < m.settled.len() {
                        assert(m.settled[q] == new[k].0);
                    }
                }
            }
            assert forall|i: int| 0 <= i < edges.len() implies t.settled.contains(
                (#[trigger] edges[i]).0,
            ) || t.waiting.contains(edges[i]) || rest.contains(edges[i]) by {
                let f = edges[i];
                if m.settled.contains(f.0) {
                    let q = choose|q: int| 0 <= q < m.settled.len() && m.settled[q] == f.0;
                    assert(t.settled[q] == f.0);
                } else if tail.contains(f) {
                    let k = choose|k: int| 0 <= k < tail.len() && tail[k] == f;
                    if k == 0 {
                        assert(t.settled[m.settled.len() as int] == f.0);
                    } else {
                        assert(rest[k - 1] == f);
                    }
                }
            }
        }
    }
}

/// What holds at the end: where an edge waits, its dialer waits too.
spec fn stuck(t: Dialing, needs: Seq<Seq<char>>) -> bool {
    forall|k: int|
        0 <= k < t.waiting.len() ==> proxy_registry::must_wait(
            (#[trigger] t.waiting[k]).1,
            needs,
            t.settled,
        )
}

proof fn lemma_idle_pass(s: Dialing, list: Seq<Edge>, needs: Seq<Seq<char>>)
    requires
        s.waiting.len() == 0,
        proxy_registry::dial_pass(s, list, needs).waiting.len() >= list.len(),
    ensures
        ({
            let t = proxy_registry::dial_pass(s, list, needs);
            &&& t.reg == s.reg
            &&& t.settled == s.settled
            &&& t.waiting == list
            &&& stuck(t, needs)
        }),
    decreases list.len(),
{
    if list.len() > 0 {
        let front = list.drop_last();
        lemma_pass_len(s, front, needs);
        lemma_idle_pass(s, front, needs);
        let m = proxy_registry::dial_pass(s, front, needs);
        let t = proxy_registry::dial_pass(s, list, needs);
        assert(t.waiting =~= list);
        assert forall|k: int| 0 <= k < t.waiting.len() implies proxy_registry::must_wait(
            (#[trigger] t.waiting[k]).1,
            needs,
            t.settled,
        ) by {
            if k < front.len() {
                assert(m.waiting[k] == t.waiting[k]);
            }
        }
    } else {
        assert(s.waiting =~= list);
    }
}

proof fn lemma_pass_len(s: Dialing, list: Seq<Edge>, needs: Seq<Seq<char>>)
    requires
        s.waiting.len() == 0,
    ensures
        proxy_registry::dial_pass(s, list, needs).waiting.len() <= list.len(),
    decreases list.len(),
{
    if list.len() > 0 {
        lemma_pass_len(s, list.drop_last(), needs);
    }
}

proof fn lemma_all(u: RegView, s: Dialing, edges: Seq<Edge>, needs: Seq<Seq<char>>)
    requires
        sound(u, s, edges, needs),
        one_dialer_each(edges),
        needs == proxy_registry::askers(edges),
        forall|i: int| 0 <= i < edges.len() ==> (#[trigger] edges[i]).0 != edges[i].1,
        untried(s, s.waiting, edges),
        accounted(s, Seq::empty(), edges),
    ensures
        ({
            let t = proxy_registry::dial_all(s, needs);
            &&& sound(u, t, edges, needs)
            &&& untried(t, t.waiting, edges)
            &&& accounted(t, Seq::empty(), edges)
            &&& stuck(t, needs)
        }),
    decreases s.waiting.len(),
{
    if s.waiting.len() > 0 {
        let start = Dialing { waiting: Seq::empty(), ..s };
        let list = s.waiting;
        let none = Seq::<Edge>::empty();
        assert(list + none =~= list);
        assert forall|i: int| 0 <= i < edges.len() implies start.settled.contains(
            (#[trigger] edges[i]).0,
        ) || start.waiting.contains(edges[i]) || (list + none).contains(edges[i]) by {
            assert(s.settled.contains(edges[i].0) || s.waiting.contains(edges[i])
                || none.contains(edges[i]));
        }
        lemma_pass(u, start, list, none, edges, needs);
        let t = proxy_registry::dial_pass(start, list, needs);
        assert(t.waiting + none =~= t.waiting);
        if t.waiting.len() < s.waiting.len() {
            lemma_all(u, t, edges, needs);
        } else {
            lemma_idle_pass(start, list, needs);
        }
    }
}

proof fn lemma_edges(proxies: Seq<Options>, n: nat)
    requires
        n <= proxies.len(),
    ensures
        forall|i: int|
            0 <= i < proxy_registry::dialer_edges(proxies, n).len() ==> (#[trigger] proxy_registry::dialer_edges(
                proxies,
                n,
            )[i]).0 != proxy_registry::dialer_edges(proxies, n)[i].1,
    decreases n,
{
    if n > 0 {
        let m = (n - 1) as nat;
        lemma_edges(proxies, m);
        let a = proxy_registry::dialer_edges(proxies, m);
        let b = proxy_registry::dialer_edges(proxies, n);
        assert forall|i: int| 0 <= i < b.len() implies (#[trigger] b[i]).0 != b[i].1 by {
            if i < a.len() {
                assert(b[i] == a[i]);
            }
        }
    }
}

/// Dialers can be chained, in any order of the configuration. Where no two
/// configured proxies of one name ask for a dialer, each proxy that asks for one
/// ends either among the cycles, and is as it was, or wrapped: around what it
/// was, and reached through what its dialer is in the end. Every other name is as
/// it was.
pub proof fn law_dialers_are_in_their_last_form(r: RegView, proxies: Seq<Options>)
    requires
        one_dialer_each(proxy_registry::dialer_edges(proxies, proxies.len())),
    ensures
        ({
            let edges = proxy_registry::dialer_edges(proxies, proxies.len());
            let d = proxy_registry::with_dialers(r, proxies);
            &&& forall|i: int|
                0 <= i < edges.len() ==> if d.waiting.contains(#[trigger] edges[i]) {
                    proxy_registry::lookup(d.reg.names, edges[i].0) == proxy_registry::lookup(
                        r.names,
                        edges[i].0,
                    )
                } else {
                    dialed(r, d.reg, edges[i])
                }
            &&& forall|n: Seq<char>|
                !proxy_registry::askers(edges).contains(n) ==> #[trigger] proxy_registry::lookup(
                    d.reg.names,
                    n,
                ) == proxy_registry::lookup(r.names, n)
        }),
{
    lemma_with_dialers(r, proxies);
    let edges = proxy_registry::dialer_edges(proxies, proxies.len());
    let needs = proxy_registry::askers(edges);
    let d = proxy_registry::with_dialers(r, proxies);
    assert forall|i: int| 0 <= i < edges.len() implies if d.waiting.contains(#[trigger] edges[i]) {
        proxy_registry::lookup(d.reg.names, edges[i].0) == proxy_registry::lookup(r.names, edges[i].0)
    } else {
        dialed(r, d.reg, edges[i])
    } by {
        if d.waiting.contains(edges[i]) {
            let k = choose|k: int| 0 <= k < d.waiting.len() && d.waiting[k] == edges[i];
            assert(!d.settled.contains(d.waiting[k].0));
        } else {
            assert(!Seq::<Edge>::empty().contains(edges[i]));
            assert(d.settled.contains(edges[i].0));
        }
    }
    assert forall|n: Seq<char>| !needs.contains(n) implies #[trigger] proxy_registry::lookup(
        d.reg.names,
        n,
    ) == proxy_registry::lookup(r.names, n) by {
        if d.settled.contains(n) {
            let k = choose|k: int| 0 <= k < d.settled.len() && d.settled[k] == n;
            assert(needs.contains(d.settled[k]));
        }
    }
}

proof fn lemma_with_dialers(r: RegView, proxies: Seq<Options>)
    requires
        one_dialer_each(proxy_registry::dialer_edges(proxies, proxies.len())),
    ensures
        ({
            let edges = proxy_registry::dialer_edges(proxies, proxies.len());
            let needs = proxy_registry::askers(edges);
            let t = proxy_registry::with_dialers(r, proxies);
            &&& sound(r, t, edges, needs)
            &&& untried(t, t.waiting, edges)
            &&& accounted(t, Seq::empty(), edges)
            &&& stuck(t, needs)
        }),
{
    let edges = proxy_registry::dialer_edges(proxies, proxies.len());
    let needs = proxy_registry::askers(edges);
    lemma_edges(proxies, proxies.len());
    let s = Dialing { reg: r, settled: Seq::empty(), waiting: edges };
    assert forall|k: int| 0 <= k < edges.len() implies edges.contains(#[trigger] edges[k])
        && !s.settled.contains(edges[k].0) by {}
    lemma_all(r, s, edges, needs);
}

/// Only edges that never end are left: the dialer of an edge that is left is a
/// proxy that is left too.
pub proof fn law_only_cycles_are_left(r: RegView, proxies: Seq<Options>, k: int)
    requires
        one_dialer_each(proxy_registry::dialer_edges(proxies, proxies.len())),
        0 <= k < proxy_registry::with_dialers(r, proxies).waiting.len(),
    ensures
        exists|j: int|
            0 <= j < proxy_registry::with_dialers(r, proxies).waiting.len() && (
            #[trigger] proxy_registry::with_dialers(r, proxies).waiting[j]).0 == proxy_registry::with_dialers(
                r,
                proxies,
            ).waiting[k].1,
{
    lemma_with_dialers(r, proxies);
    let edges = proxy_registry::dialer_edges(proxies, proxies.len());
    let needs = proxy_registry::askers(edges);
    let t = proxy_registry::with_dialers(r, proxies);
    let d = t.waiting[k].1;
    assert(proxy_registry::must_wait(d, needs, t.settled));
    let i = choose|i: int| 0 <= i < needs.len() && needs[i] == d;
    assert(edges[i].0 == d);
    assert(!Seq::<Edge>::empty().contains(edges[i]));
    assert(t.waiting.contains(edges[i]));
    let j = choose|j: int| 0 <= j < t.waiting.len() && t.waiting[j] == edges[i];
    assert(t.waiting[j].0 == d);
}

/// A proxy whose dialers lead into a cycle is itself left alone: an edge whose
/// dialer is a proxy that is left is left too, and its proxy is as it was.
pub proof fn law_what_leads_into_a_cycle_is_left(
    r: RegView,
    proxies: Seq<Options>,
    i: int,
    k: int,
)
    requires
        one_dialer_each(proxy_registry::dialer_edges(proxies, proxies.len())),
        0 <= i < proxy_registry::dialer_edges(proxies, proxies.len()).len(),
        0 <= k < proxy_registry::with_dialers(r, proxies).waiting.len(),
        proxy_registry::dialer_edges(proxies, proxies.len())[i].1 == proxy_registry::with_dialers(
            r,
            proxies,
        ).waiting[k].0,
    ensures
        proxy_registry::with_dialers(r, proxies).waiting.contains(
            proxy_registry::dialer_edges(proxies, proxies.len())[i],
        ),
        proxy_registry::lookup(
            proxy_registry::with_dialers(r, proxies).reg.names,
            proxy_registry::dialer_edges(proxies, proxies.len())[i].0,
        ) == proxy_registry::lookup(
            r.names,
            proxy_registry::dialer_edges(proxies, proxies.len())[i].0,
        ),
{
    lemma_with_dialers(r, proxies);
    law_dialers_are_in_their_last_form(r, proxies);
    let edges = proxy_registry::dialer_edges(proxies, proxies.len());
    let needs = proxy_registry::askers(edges);
    let t = proxy_registry::with_dialers(r, proxies);
    let e = t.waiting[k];
    assert(edges.contains(e) && !t.settled.contains(e.0));
    let j = choose|j: int| 0 <= j < edges.len() && edges[j] == e;
    assert(needs[j] == e.0);
    assert(proxy_registry::must_wait(edges[i].1, needs, t.settled));
    assert(!Seq::<Edge>::empty().contains(edges[i]));
    assert(!t.settled.contains(edges[i].0));
}

} // verus!
