//! Groups that list each other, in whatever order they are written.

use crate::config::dialer_laws;
use crate::config::group;
use crate::config::proxy_registry;
use crate::config::proxy_registry::{Dialing, NodeView, RegView};
use crate::config::raw::{RawConfig, RawProxyGroup};
use crate::config::registry_laws;
use crate::config::registry_laws::{leaves_of, names_of, within};
use crate::config::yaml;
use crate::config::yaml::Options;
use crate::text;
use vstd::prelude::*;

verus! {

/// What groups are built from.
pub struct Scope {
    pub proxies: Seq<Options>,
    pub groups: Seq<RawProxyGroup>,
    pub providers: Seq<Seq<char>>,
    pub store: bool,
}

/// What the groups of a configuration are built from.
pub open spec fn scope_of(raw: RawConfig, providers: Seq<Seq<char>>, store: bool) -> Scope {
    Scope {
        proxies: proxy_registry::proxies_in(raw),
        groups: proxy_registry::groups_in(raw),
        providers,
        store,
    }
}

/// The name of a proxy or group. A node that dials stands for another, and has no name
/// of its own.
pub open spec fn node_name(c: Scope, node: NodeView) -> Seq<char> {
    match node {
        NodeView::Direct { .. } => "DIRECT"@,
        NodeView::Reject => "REJECT"@,
        NodeView::RejectDrop => "REJECT-DROP"@,
        NodeView::Leaf { proxy } => yaml::str_option(c.proxies[proxy]@, "name"@)->0,
        NodeView::Group { section: Some(i), .. } => c.groups[i].name@,
        NodeView::Group { section: None, .. } => "GLOBAL"@,
        NodeView::Dialed { .. } => Seq::empty(),
    }
}

/// The names of the members of a group.
pub open spec fn member_names(c: Scope, r: RegView, members: Seq<int>) -> Seq<Seq<char>> {
    members.map_values(|m: int| node_name(c, r.nodes[m]))
}

/// Whether a node is the configured group at a position, with exactly the members that
/// it lists, in the order in which it lists them.
pub open spec fn as_listed(c: Scope, r: RegView, node: NodeView, i: int) -> bool {
    let g = c.groups[i];
    let expected = group::group_kind(g, c.store);
    &&& node matches NodeView::Group { section, kind, members, providers }
    &&& section == Some(i)
    &&& kind == expected
    &&& forall|k: int| 0 <= k < members.len() ==> 0 <= #[trigger] members[k] < r.nodes.len()
    &&& member_names(c, r, members) == group::opt_list(g.proxies)
    &&& providers == (if expected is LoadBalance || expected is Relay {
        Seq::empty()
    } else {
        group::sources_of(g, c.providers)
    })
}

/// Whether the name of the group at a position stands for that group as it is listed.
pub open spec fn built(c: Scope, r: RegView, i: int) -> bool {
    proxy_registry::lookup(r.names, c.groups[i].name@) matches Some(id) && 0 <= id < r.nodes.len()
        && as_listed(c, r, r.nodes[id], i)
}

/// Whether each name stands for a node of that name.
pub open spec fn labelled(c: Scope, r: RegView) -> bool {
    forall|j: int|
        0 <= j < r.names.len() ==> node_name(c, r.nodes[(#[trigger] r.names[j]).1]) == r.names[j].0
}

/// A group that can be built once everything that it lists exists: its kind is
/// known, it lists enough, and it does not take in every proxy there is.
pub open spec fn sound_group(g: RawProxyGroup, providers: Seq<Seq<char>>) -> bool {
    let n = group::opt_list(g.proxies).len();
    let t = g.group_type@;
    &&& g.include_all_proxies != Some(true)
    &&& n > 0 || group::sources_of(g, providers).len() > 0
    &&& {
        ||| t == "select"@ || t == "url-test"@ || t == "fallback"@
        ||| t == "load-balance"@ && group::strategy_of(text::opt_view(g.strategy)) is Some
        ||| t == "relay"@ && n >= 2
    }
}

/// Everything that a group lists is in a list of names.
pub open spec fn all_known(g: RawProxyGroup, names: Seq<Seq<char>>) -> bool {
    within(group::opt_list(g.proxies), names)
}

/// No two groups have the same name.
pub open spec fn distinct_groups(groups: Seq<RawProxyGroup>) -> bool {
    forall|i: int, j: int|
        0 <= i < j < groups.len() ==> (#[trigger] groups[i]).name@ != (#[trigger] groups[j]).name@
}

/// Whether a configured proxy has this name.
pub open spec fn proxy_name(proxies: Seq<Options>, x: Seq<char>) -> bool {
    exists|j: int|
        0 <= j < proxies.len() && yaml::str_option(#[trigger] proxies[j]@, "name"@) == Some(x)
}

/// Every name that a group lists is in a list of names, or is the name of a group
/// on a lower level, so that no group lists itself by way of others.
pub open spec fn acyclic(
    base: Seq<Seq<char>>,
    groups: Seq<RawProxyGroup>,
    level: spec_fn(Seq<char>) -> nat,
) -> bool {
    forall|i: int, x: Seq<char>|
        0 <= i < groups.len() && #[trigger] group::opt_list(groups[i].proxies).contains(x)
            ==> base.contains(x) || exists|j: int|
            0 <= j < groups.len() && (#[trigger] groups[j]).name@ == x && level(x) < level(
                groups[i].name@,
            )
}

/// Whether the groups of a configuration are sound: each can be built by itself, their
/// names are their own, and they list what exists, without a circle.
pub open spec fn sound_groups(
    raw: RawConfig,
    failed: Seq<usize>,
    resolver: bool,
    providers: Seq<Seq<char>>,
    level: spec_fn(Seq<char>) -> nat,
) -> bool {
    let groups = proxy_registry::groups_in(raw);
    &&& forall|j: int| 0 <= j < groups.len() ==> sound_group(#[trigger] groups[j], providers)
    &&& distinct_groups(groups)
    &&& forall|j: int|
        0 <= j < groups.len() ==> !proxy_name(
            proxy_registry::proxies_in(raw),
            (#[trigger] groups[j]).name@,
        )
    &&& acyclic(names_of(leaves_of(raw, failed, resolver)), groups, level)
}

proof fn lemma_known_all(names: Seq<Seq<char>>, existing: Seq<Seq<char>>)
    requires
        within(names, existing),
    ensures
        group::known(names, existing) == names,
    decreases names.len(),
{
    if names.len() > 0 {
        let rest = names.drop_last();
        assert forall|x: Seq<char>| #[trigger] rest.contains(x) implies existing.contains(x) by {
            let i = choose|i: int| 0 <= i < rest.len() && rest[i] == x;
            assert(names[i] == x);
            assert(names.contains(x));
        }
        lemma_known_all(rest, existing);
        assert(names.contains(names[names.len() - 1]));
        assert(rest.push(names.last()) =~= names);
    } else {
        assert(group::known(names, existing) =~= names);
    }
}

proof fn lemma_no_unknown(names: Seq<Seq<char>>, existing: Seq<Seq<char>>, from: int)
    requires
        within(names, existing),
        0 <= from,
    ensures
        group::first_unknown(names, existing, from) is None,
    decreases names.len() - from,
{
    if from < names.len() {
        assert(names.contains(names[from]));
        lemma_no_unknown(names, existing, from + 1);
    }
}

proof fn lemma_unknown(names: Seq<Seq<char>>, existing: Seq<Seq<char>>, from: int)
    requires
        group::first_unknown(names, existing, from) is None,
        0 <= from,
    ensures
        forall|i: int| from <= i < names.len() ==> existing.contains(#[trigger] names[i]),
    decreases names.len() - from,
{
    if from < names.len() {
        lemma_unknown(names, existing, from + 1);
    }
}

/// A strict build takes exactly the members that are listed.
proof fn lemma_strict(g: RawProxyGroup, names: Seq<Seq<char>>, providers: Seq<Seq<char>>)
    requires
        group::group_error(g, names, true, providers) is None,
        g.include_all_proxies != Some(true),
    ensures
        all_known(g, names),
        group::members_of(g, names) == group::opt_list(g.proxies),
{
    let list = group::opt_list(g.proxies);
    lemma_unknown(list, names, 0);
    assert forall|x: Seq<char>| #[trigger] list.contains(x) implies names.contains(x) by {
        let i = choose|i: int| 0 <= i < list.len() && list[i] == x;
        assert(names.contains(list[i]));
    }
    lemma_known_all(list, names);
    assert(group::members_of(g, names) =~= list);
}

proof fn lemma_ready(g: RawProxyGroup, names: Seq<Seq<char>>, providers: Seq<Seq<char>>)
    requires
        sound_group(g, providers),
        all_known(g, names),
    ensures
        group::group_error(g, names, true, providers) is None,
{
    reveal_strlit("relay");
    reveal_strlit("load-balance");
    lemma_known_all(group::opt_list(g.proxies), names);
    lemma_no_unknown(group::opt_list(g.proxies), names, 0);
    assert(group::members_of(g, names) =~= group::opt_list(g.proxies));
    assert("load-balance"@.len() == 12);
    assert("relay"@.len() == 5);
}

proof fn lemma_labelled_node(c: Scope, r: RegView, n: Seq<char>, node: NodeView)
    requires
        proxy_registry::reg_ok(r),
        labelled(c, r),
        node_name(c, node) == n,
    ensures
        proxy_registry::reg_ok(proxy_registry::with_node(r, n, node)),
        labelled(c, proxy_registry::with_node(r, n, node)),
{
    proxy_registry::lemma_bind_ok(r, n, node);
    let w = proxy_registry::with_node(r, n, node);
    let id = r.nodes.len() as int;
    assert(w.nodes[id] == node);
    assert forall|j: int| 0 <= j < w.names.len() implies node_name(
        c,
        w.nodes[(#[trigger] w.names[j]).1],
    ) == w.names[j].0 by {
        if j < r.names.len() {
            assert(node_name(c, r.nodes[r.names[j].1]) == r.names[j].0);
        }
    }
}

proof fn lemma_labelled_leaves(c: Scope, r: RegView, failed: Seq<usize>, n: nat)
    requires
        proxy_registry::reg_ok(r),
        labelled(c, r),
    ensures
        proxy_registry::reg_ok(proxy_registry::with_leaves(r, c.proxies, failed, n)),
        labelled(c, proxy_registry::with_leaves(r, c.proxies, failed, n)),
    decreases n,
{
    if n > 0 {
        let m = (n - 1) as nat;
        lemma_labelled_leaves(c, r, failed, m);
        lemma_labelled_node(
            c,
            proxy_registry::with_leaves(r, c.proxies, failed, m),
            yaml::str_option(c.proxies[n - 1]@, "name"@)->0,
            NodeView::Leaf { proxy: n - 1 },
        );
    }
}

proof fn lemma_labelled_start(c: Scope, raw: RawConfig, failed: Seq<usize>, resolver: bool)
    requires
        c.proxies == proxy_registry::proxies_in(raw),
    ensures
        proxy_registry::reg_ok(leaves_of(raw, failed, resolver)),
        labelled(c, leaves_of(raw, failed, resolver)),
{
    let e = RegView { nodes: Seq::empty(), names: Seq::empty() };
    let d = NodeView::Direct { routing_mark: raw.routing_mark, resolver };
    lemma_labelled_node(c, e, "DIRECT"@, d);
    let r1 = proxy_registry::with_node(e, "DIRECT"@, d);
    lemma_labelled_node(c, r1, "REJECT"@, NodeView::Reject);
    let r2 = proxy_registry::with_node(r1, "REJECT"@, NodeView::Reject);
    lemma_labelled_node(c, r2, "REJECT-DROP"@, NodeView::RejectDrop);
    let base = proxy_registry::builtins(raw.routing_mark, resolver);
    lemma_labelled_leaves(c, base, failed, c.proxies.len());
}

/// A node under another name leaves a group as it is.
proof fn lemma_kept(c: Scope, r: RegView, n: Seq<char>, node: NodeView, i: int)
    requires
        built(c, r, i),
        n != c.groups[i].name@,
    ensures
        built(c, proxy_registry::with_node(r, n, node), i),
{
    let w = proxy_registry::with_node(r, n, node);
    let name = c.groups[i].name@;
    dialer_laws::lemma_lookup_bind(r.names, n, r.nodes.len() as int, name);
    let id = proxy_registry::lookup(r.names, name)->0;
    assert(w.nodes[id] == r.nodes[id]);
    let members = r.nodes[id]->Group_members;
    assert(member_names(c, w, members) =~= member_names(c, r, members));
}

/// A group that is built strictly has exactly the members that it lists.
proof fn lemma_built(c: Scope, r: RegView, i: int)
    requires
        0 <= i < c.groups.len(),
        proxy_registry::reg_ok(r),
        labelled(c, r),
        c.groups[i].include_all_proxies != Some(true),
        group::group_error(c.groups[i], names_of(r), true, c.providers) is None,
    ensures
        ({
            let node = proxy_registry::group_node(r, c.groups[i], i, c.providers, c.store);
            built(c, proxy_registry::with_node(r, c.groups[i].name@, node), i)
        }),
{
    let g = c.groups[i];
    let node = proxy_registry::group_node(r, g, i, c.providers, c.store);
    let w = proxy_registry::with_node(r, g.name@, node);
    let list = group::opt_list(g.proxies);
    lemma_strict(g, names_of(r), c.providers);
    let members = proxy_registry::ids_of(r.names, list);
    assert forall|k: int| 0 <= k < members.len() implies 0 <= #[trigger] members[k]
        < r.nodes.len() && node_name(c, r.nodes[members[k]]) == list[k] by {
        assert(list.contains(list[k]));
        registry_laws::lemma_bound(r, list[k]);
        proxy_registry::lemma_lookup(r.names, list[k]);
        let id = proxy_registry::lookup(r.names, list[k])->0;
        let j = choose|j: int| 0 <= j < r.names.len() && (#[trigger] r.names[j]) == (list[k], id);
        assert(node_name(c, r.nodes[r.names[j].1]) == r.names[j].0);
    }
    dialer_laws::lemma_lookup_bind(r.names, g.name@, r.nodes.len() as int, g.name@);
    assert(w.nodes[r.nodes.len() as int] == node);
    assert(member_names(c, w, members) =~= list);
}

proof fn lemma_pass(c: Scope, r: RegView, left: Seq<int>)
    requires
        proxy_registry::reg_ok(r),
        labelled(c, r),
        distinct_groups(c.groups),
        forall|k: int| 0 <= k < left.len() ==> 0 <= #[trigger] left[k] < c.groups.len(),
        forall|i: int| 0 <= i < c.groups.len() ==> sound_group(#[trigger] c.groups[i], c.providers),
    ensures
        ({
            let (r2, still) = proxy_registry::group_pass(
                r,
                c.groups,
                left,
                true,
                c.providers,
                c.store,
            );
            &&& proxy_registry::reg_ok(r2)
            &&& labelled(c, r2)
            &&& within(names_of(r), names_of(r2))
            &&& still.len() <= left.len()
            &&& forall|k: int| 0 <= k < still.len() ==> left.contains(#[trigger] still[k])
            &&& forall|i: int|
                0 <= i < c.groups.len() && #[trigger] built(c, r, i) ==> built(c, r2, i)
            &&& forall|k: int|
                0 <= k < left.len() ==> still.contains(#[trigger] left[k]) || built(c, r2, left[k])
            &&& (exists|k: int|
                0 <= k < left.len() && all_known(c.groups[#[trigger] left[k]], names_of(r)))
                ==> still.len() < left.len()
        }),
    decreases left.len(),
{
    if left.len() > 0 {
        let rest = left.drop_last();
        assert forall|k: int| 0 <= k < rest.len() implies 0 <= #[trigger] rest[k]
            < c.groups.len() by {
            assert(rest[k] == left[k]);
        }
        lemma_pass(c, r, rest);
        let (r1, still1) = proxy_registry::group_pass(
            r,
            c.groups,
            rest,
            true,
            c.providers,
            c.store,
        );
        let (r2, still) = proxy_registry::group_pass(
            r,
            c.groups,
            left,
            true,
            c.providers,
            c.store,
        );
        let i = left.last();
        assert(left[left.len() - 1] == i);
        let g = c.groups[i];
        assert(sound_group(g, c.providers));
        let node = proxy_registry::group_node(r1, g, i, c.providers, c.store);
        registry_laws::lemma_names_with_node(r1, g.name@, node);
        let done = group::group_error(g, names_of(r1), true, c.providers) is None;
        if done {
            lemma_built(c, r1, i);
            lemma_labelled_node(c, r1, g.name@, node);
            assert(r2 == proxy_registry::with_node(r1, g.name@, node));
            assert forall|j: int| 0 <= j < c.groups.len() && #[trigger] built(
                c,
                r,
                j,
            ) implies built(c, r2, j) by {
                if j != i {
                    assert(c.groups[j].name@ != c.groups[i].name@);
                    lemma_kept(c, r1, g.name@, node, j);
                }
            }
        }
        assert forall|k: int| 0 <= k < still.len() implies left.contains(#[trigger] still[k]) by {
            if k < still1.len() {
                assert(still[k] == still1[k]);
                assert(rest.contains(still1[k]));
                let j = choose|j: int| 0 <= j < rest.len() && rest[j] == still1[k];
                assert(left[j] == still[k]);
            }
        }
        assert forall|k: int| 0 <= k < left.len() implies still.contains(#[trigger] left[k])
            || built(c, r2, left[k]) by {
            if k < rest.len() {
                assert(rest[k] == left[k]);
                if still1.contains(rest[k]) {
                    let j = choose|j: int| 0 <= j < still1.len() && still1[j] == rest[k];
                    assert(still[j] == left[k]);
                } else if done && left[k] != i {
                    assert(c.groups[left[k]].name@ != c.groups[i].name@);
                    lemma_kept(c, r1, g.name@, node, left[k]);
                }
            } else if !done {
                assert(still[still1.len() as int] == i);
            }
        }
        if exists|k: int|
            0 <= k < left.len() && all_known(c.groups[#[trigger] left[k]], names_of(r)) {
            let k = choose|k: int|
                0 <= k < left.len() && all_known(c.groups[#[trigger] left[k]], names_of(r));
            if k < rest.len() {
                assert(rest[k] == left[k]);
                assert(still1.len() < rest.len());
            } else {
                assert(all_known(g, names_of(r1)));
                lemma_ready(g, names_of(r1), c.providers);
            }
        }
    }
}

/// A position among the first ones of a list at which the level is lowest.
spec fn lowest(
    groups: Seq<RawProxyGroup>,
    level: spec_fn(Seq<char>) -> nat,
    left: Seq<int>,
    n: int,
) -> int
    decreases n,
{
    if n <= 0 {
        0
    } else {
        let k = lowest(groups, level, left, n - 1);
        if level(groups[left[n]].name@) < level(groups[left[k]].name@) {
            n
        } else {
            k
        }
    }
}

proof fn lemma_lowest(
    groups: Seq<RawProxyGroup>,
    level: spec_fn(Seq<char>) -> nat,
    left: Seq<int>,
    n: int,
)
    requires
        0 <= n < left.len(),
    ensures
        0 <= lowest(groups, level, left, n) <= n,
        forall|q: int|
            0 <= q <= n ==> level(groups[left[lowest(groups, level, left, n)]].name@) <= level(
                groups[#[trigger] left[q]].name@,
            ),
    decreases n,
{
    if n > 0 {
        lemma_lowest(groups, level, left, n - 1);
    }
}

proof fn lemma_passes(
    c: Scope,
    r: RegView,
    base: Seq<Seq<char>>,
    level: spec_fn(Seq<char>) -> nat,
    left: Seq<int>,
)
    requires
        proxy_registry::reg_ok(r),
        labelled(c, r),
        distinct_groups(c.groups),
        acyclic(base, c.groups, level),
        within(base, names_of(r)),
        forall|k: int| 0 <= k < left.len() ==> 0 <= #[trigger] left[k] < c.groups.len(),
        forall|i: int| 0 <= i < c.groups.len() ==> sound_group(#[trigger] c.groups[i], c.providers),
        forall|i: int| 0 <= i < c.groups.len() ==> left.contains(i) || #[trigger] built(c, r, i),
    ensures
        forall|i: int|
            0 <= i < c.groups.len() ==> #[trigger] built(
                c,
                proxy_registry::with_groups(r, c.groups, left, c.providers, c.store),
                i,
            ),
    decreases left.len(),
{
    if left.len() > 0 {
        lemma_pass(c, r, left);
        let (r2, still) = proxy_registry::group_pass(
            r,
            c.groups,
            left,
            true,
            c.providers,
            c.store,
        );
        let k = lowest(c.groups, level, left, left.len() as int - 1);
        lemma_lowest(c.groups, level, left, left.len() as int - 1);
        let g = c.groups[left[k]];
        assert forall|x: Seq<char>| #[trigger]
            group::opt_list(g.proxies).contains(x) implies names_of(r).contains(x) by {
            if !base.contains(x) {
                let j = choose|j: int|
                    0 <= j < c.groups.len() && (#[trigger] c.groups[j]).name@ == x && level(x)
                        < level(g.name@);
                if left.contains(j) {
                    let q = choose|q: int| 0 <= q < left.len() && left[q] == j;
                    assert(level(g.name@) <= level(c.groups[left[q]].name@));
                }
                assert(built(c, r, j));
                proxy_registry::lemma_lookup(r.names, x);
            }
        }
        assert(all_known(c.groups[left[k]], names_of(r)));
        assert(still.len() < left.len());
        assert forall|q: int| 0 <= q < still.len() implies 0 <= #[trigger] still[q]
            < c.groups.len() by {
            assert(left.contains(still[q]));
        }
        assert forall|i: int| 0 <= i < c.groups.len() implies still.contains(i)
            || #[trigger] built(c, r2, i) by {
            if left.contains(i) {
                let q = choose|q: int| 0 <= q < left.len() && left[q] == i;
                assert(still.contains(left[q]) || built(c, r2, left[q]));
            } else {
                assert(built(c, r, i));
            }
        }
        assert forall|x: Seq<char>| #[trigger] base.contains(x) implies names_of(r2).contains(
            x,
        ) by {
            assert(names_of(r).contains(x));
        }
        lemma_passes(c, r2, base, level, still);
        let done = proxy_registry::with_groups(r2, c.groups, still, c.providers, c.store);
        assert(proxy_registry::with_groups(r, c.groups, left, c.providers, c.store) == done);
        assert forall|i: int| 0 <= i < c.groups.len() implies #[trigger] built(
            c,
            proxy_registry::with_groups(r, c.groups, left, c.providers, c.store),
            i,
        ) by {
            assert(built(c, done, i));
        }
    } else {
        assert forall|i: int| 0 <= i < c.groups.len() implies #[trigger] built(
            c,
            proxy_registry::with_groups(r, c.groups, left, c.providers, c.store),
            i,
        ) by {
            assert(built(c, r, i));
        }
    }
}

/// Whether none of some edges is for a name.
spec fn spares(edges: Seq<(Seq<char>, Seq<char>)>, name: Seq<char>) -> bool {
    forall|k: int| 0 <= k < edges.len() ==> (#[trigger] edges[k]).0 != name
}

proof fn lemma_edges(proxies: Seq<Options>, n: nat, name: Seq<char>)
    requires
        n <= proxies.len(),
        !proxy_name(proxies, name),
    ensures
        spares(proxy_registry::dialer_edges(proxies, n), name),
    decreases n,
{
    if n > 0 {
        lemma_edges(proxies, (n - 1) as nat, name);
        assert(yaml::str_option(proxies[n - 1]@, "name"@) != Some(name));
    }
}

proof fn lemma_dial_pass(
    c: Scope,
    s: Dialing,
    edges: Seq<(Seq<char>, Seq<char>)>,
    needs: Seq<Seq<char>>,
    i: int,
)
    requires
        built(c, s.reg, i),
        spares(edges, c.groups[i].name@),
        spares(s.waiting, c.groups[i].name@),
    ensures
        built(c, proxy_registry::dial_pass(s, edges, needs).reg, i),
        spares(proxy_registry::dial_pass(s, edges, needs).waiting, c.groups[i].name@),
    decreases edges.len(),
{
    if edges.len() > 0 {
        let rest = edges.drop_last();
        assert forall|k: int| 0 <= k < rest.len() implies (#[trigger] rest[k]).0
            != c.groups[i].name@ by {
            assert(rest[k] == edges[k]);
        }
        lemma_dial_pass(c, s, rest, needs, i);
        let t = proxy_registry::dial_pass(s, rest, needs);
        let e = edges.last();
        assert(edges[edges.len() - 1].0 != c.groups[i].name@);
        match (proxy_registry::lookup(t.reg.names, e.0), proxy_registry::lookup(t.reg.names, e.1)) {
            (Some(inner), Some(dialer)) => {
                lemma_kept(c, t.reg, e.0, NodeView::Dialed { inner, dialer }, i);
            },
            _ => {},
        }
    }
}

proof fn lemma_dial_all(c: Scope, s: Dialing, needs: Seq<Seq<char>>, i: int)
    requires
        built(c, s.reg, i),
        spares(s.waiting, c.groups[i].name@),
    ensures
        built(c, proxy_registry::dial_all(s, needs).reg, i),
    decreases s.waiting.len(),
{
    if s.waiting.len() > 0 {
        let start = Dialing { waiting: Seq::empty(), ..s };
        lemma_dial_pass(c, start, s.waiting, needs, i);
        let t = proxy_registry::dial_pass(start, s.waiting, needs);
        if t.waiting.len() < s.waiting.len() {
            lemma_dial_all(c, t, needs, i);
        }
    }
}

/// Groups can list each other in any order of the configuration: where no group lists
/// itself by way of others, and all that is listed exists, every group is registered
/// under its name, with exactly the members that it lists, in the order in which it
/// lists them.
pub proof fn law_groups_in_any_order(
    raw: RawConfig,
    failed: Seq<usize>,
    resolver: bool,
    providers: Seq<Seq<char>>,
    store: bool,
    level: spec_fn(Seq<char>) -> nat,
    i: int,
)
    requires
        sound_groups(raw, failed, resolver, providers, level),
        0 <= i < proxy_registry::groups_in(raw).len(),
    ensures
        built(
            scope_of(raw, providers, store),
            proxy_registry::registry_of(raw, failed, resolver, providers, store).reg,
            i,
        ),
{
    let c = scope_of(raw, providers, store);
    let leaves = leaves_of(raw, failed, resolver);
    let left = Seq::new(c.groups.len(), |k: int| k);
    assert forall|j: int| 0 <= j < c.groups.len() implies left.contains(j) || #[trigger] built(
        c,
        leaves,
        j,
    ) by {
        assert(left[j] == j);
    }
    lemma_labelled_start(c, raw, failed, resolver);
    lemma_passes(c, leaves, names_of(leaves), level, left);
    let g = proxy_registry::with_groups(leaves, c.groups, left, c.providers, c.store);
    assert(built(c, g, i));
    let name = c.groups[i].name@;
    let u = proxy_registry::undialed(raw, failed, resolver, providers, store);
    if !names_of(g).contains("GLOBAL"@) {
        let node = NodeView::Group {
            section: None,
            kind: group::GroupKind::Select { persistent: store },
            members: proxy_registry::ids_of(g.names, proxy_registry::sorted(names_of(g))),
            providers: Seq::empty(),
        };
        proxy_registry::lemma_lookup(g.names, name);
        lemma_kept(c, g, "GLOBAL"@, node, i);
        assert(u == proxy_registry::with_node(g, "GLOBAL"@, node));
    }
    let edges = proxy_registry::dialer_edges(c.proxies, c.proxies.len());
    lemma_edges(c.proxies, c.proxies.len(), name);
    lemma_dial_all(
        c,
        Dialing { reg: u, settled: Seq::empty(), waiting: edges },
        proxy_registry::askers(edges),
        i,
    );
}

/// The names of the members of the group that a name stands for.
pub open spec fn members_under(c: Scope, r: RegView, name: Seq<char>) -> Option<Seq<Seq<char>>> {
    match proxy_registry::lookup(r.names, name) {
        Some(id) => match r.nodes[id] {
            NodeView::Group { members, .. } => Some(member_names(c, r, members)),
            _ => None,
        },
        None => None,
    }
}

/// Whether two configurations differ at most in the order of their groups.
pub open spec fn reordered(raw: RawConfig, other: RawConfig) -> bool {
    &&& other == (RawConfig { proxy_groups: other.proxy_groups, ..raw })
    &&& distinct_groups(proxy_registry::groups_in(other))
    &&& forall|g: RawProxyGroup| #[trigger]
        proxy_registry::groups_in(other).contains(g) <==> proxy_registry::groups_in(raw).contains(g)
}

proof fn lemma_still_sound(
    raw: RawConfig,
    other: RawConfig,
    failed: Seq<usize>,
    resolver: bool,
    providers: Seq<Seq<char>>,
    level: spec_fn(Seq<char>) -> nat,
)
    requires
        sound_groups(raw, failed, resolver, providers, level),
        reordered(raw, other),
    ensures
        sound_groups(other, failed, resolver, providers, level),
        leaves_of(other, failed, resolver) == leaves_of(raw, failed, resolver),
{
    let a = proxy_registry::groups_in(raw);
    let b = proxy_registry::groups_in(other);
    let base = names_of(leaves_of(raw, failed, resolver));
    assert forall|j: int| 0 <= j < b.len() implies sound_group(#[trigger] b[j], providers)
        && !proxy_name(proxy_registry::proxies_in(raw), b[j].name@) by {
        assert(b.contains(b[j]));
        let k = choose|k: int| 0 <= k < a.len() && a[k] == b[j];
        assert(sound_group(a[k], providers));
    }
    assert forall|i: int, x: Seq<char>|
        0 <= i < b.len() && #[trigger] group::opt_list(b[i].proxies).contains(x) implies base.contains(
        x,
    ) || exists|j: int|
        0 <= j < b.len() && (#[trigger] b[j]).name@ == x && level(x) < level(b[i].name@) by {
        assert(b.contains(b[i]));
        let k = choose|k: int| 0 <= k < a.len() && a[k] == b[i];
        assert(group::opt_list(a[k].proxies).contains(x));
        if !base.contains(x) {
            let j = choose|j: int|
                0 <= j < a.len() && (#[trigger] a[j]).name@ == x && level(x) < level(a[k].name@);
            assert(a.contains(a[j]));
            assert(b.contains(a[j]));
            let q = choose|q: int| 0 <= q < b.len() && b[q] == a[j];
            assert(b[q].name@ == x);
        }
    }
}

proof fn lemma_names_within(
    raw: RawConfig,
    other: RawConfig,
    failed: Seq<usize>,
    resolver: bool,
    providers: Seq<Seq<char>>,
    store: bool,
    level: spec_fn(Seq<char>) -> nat,
)
    requires
        sound_groups(other, failed, resolver, providers, level),
        leaves_of(other, failed, resolver) == leaves_of(raw, failed, resolver),
        forall|g: RawProxyGroup| #[trigger]
            proxy_registry::groups_in(raw).contains(g) ==> proxy_registry::groups_in(
                other,
            ).contains(g),
    ensures
        within(
            names_of(proxy_registry::registry_of(raw, failed, resolver, providers, store).reg),
            names_of(proxy_registry::registry_of(other, failed, resolver, providers, store).reg),
        ),
{
    let r = proxy_registry::registry_of(raw, failed, resolver, providers, store).reg;
    let t = proxy_registry::registry_of(other, failed, resolver, providers, store).reg;
    let a = proxy_registry::groups_in(raw);
    let b = proxy_registry::groups_in(other);
    registry_laws::lemma_all_names(raw, failed, resolver, providers, store);
    registry_laws::lemma_all_names(other, failed, resolver, providers, store);
    let u = proxy_registry::undialed(raw, failed, resolver, providers, store);
    let v = proxy_registry::undialed(other, failed, resolver, providers, store);
    assert forall|x: Seq<char>| #[trigger] names_of(r).contains(x) implies names_of(t).contains(
        x,
    ) by {
        assert(names_of(u).contains(x));
        if names_of(leaves_of(raw, failed, resolver)).contains(x) {
            assert(names_of(v).contains(x));
        } else if registry_laws::group_name(a, x) {
            let i = choose|i: int| 0 <= i < a.len() && (#[trigger] a[i]).name@ == x;
            assert(a.contains(a[i]));
            let j = choose|j: int| 0 <= j < b.len() && b[j] == a[i];
            law_groups_in_any_order(other, failed, resolver, providers, store, level, j);
            proxy_registry::lemma_lookup(t.names, x);
        } else {
            assert(names_of(v).contains("GLOBAL"@));
        }
    }
}

/// The order in which groups are written does not matter: the same names are registered,
/// and every group has the same members in the same order.
pub proof fn law_the_order_of_groups_does_not_matter(
    raw: RawConfig,
    other: RawConfig,
    failed: Seq<usize>,
    resolver: bool,
    providers: Seq<Seq<char>>,
    store: bool,
    level: spec_fn(Seq<char>) -> nat,
)
    requires
        sound_groups(raw, failed, resolver, providers, level),
        reordered(raw, other),
    ensures
        ({
            let r = proxy_registry::registry_of(raw, failed, resolver, providers, store).reg;
            let t = proxy_registry::registry_of(other, failed, resolver, providers, store).reg;
            &&& names_of(t).to_set() == names_of(r).to_set()
            &&& forall|i: int|
                0 <= i < proxy_registry::groups_in(raw).len() ==> {
                    let g = #[trigger] proxy_registry::groups_in(raw)[i];
                    &&& members_under(scope_of(raw, providers, store), r, g.name@) == Some(
                        group::opt_list(g.proxies),
                    )
                    &&& members_under(scope_of(other, providers, store), t, g.name@) == Some(
                        group::opt_list(g.proxies),
                    )
                }
        }),
{
    let r = proxy_registry::registry_of(raw, failed, resolver, providers, store).reg;
    let t = proxy_registry::registry_of(other, failed, resolver, providers, store).reg;
    let a = proxy_registry::groups_in(raw);
    let b = proxy_registry::groups_in(other);
    lemma_still_sound(raw, other, failed, resolver, providers, level);
    lemma_names_within(raw, other, failed, resolver, providers, store, level);
    lemma_names_within(other, raw, failed, resolver, providers, store, level);
    assert(names_of(t).to_set() =~= names_of(r).to_set()) by {
        assert forall|x: Seq<char>| names_of(t).to_set().contains(x) == names_of(
            r,
        ).to_set().contains(x) by {
            assert(names_of(t).contains(x) == names_of(r).contains(x));
        }
    }
    assert forall|i: int| 0 <= i < a.len() implies {
        let g = #[trigger] a[i];
        &&& members_under(scope_of(raw, providers, store), r, g.name@) == Some(
            group::opt_list(g.proxies),
        )
        &&& members_under(scope_of(other, providers, store), t, g.name@) == Some(
            group::opt_list(g.proxies),
        )
    } by {
        law_groups_in_any_order(raw, failed, resolver, providers, store, level, i);
        assert(a.contains(a[i]));
        assert(b.contains(a[i]));
        let j = choose|j: int| 0 <= j < b.len() && b[j] == a[i];
        law_groups_in_any_order(other, failed, resolver, providers, store, level, j);
    }
}

} // verus!
