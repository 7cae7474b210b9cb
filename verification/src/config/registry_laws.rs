//! What holds of every registry.

use crate::config::group;
use crate::config::raw::{RawConfig, RawProxyGroup};
use crate::config::proxy_registry;
use crate::config::proxy_registry::{Dialing, NodeView, RegView};
use crate::config::yaml;
use crate::config::yaml::Options;
use crate::text;
use vstd::prelude::*;

verus! {

/// Every text of the first list is in the second.
pub open spec fn within(a: Seq<Seq<char>>, b: Seq<Seq<char>>) -> bool {
    forall|x: Seq<char>| #[trigger] a.contains(x) ==> b.contains(x)
}

/// The names of a registry.
pub open spec fn names_of(r: RegView) -> Seq<Seq<char>> {
    proxy_registry::keys(r.names)
}

/// The names of a registry with a new node.
pub proof fn lemma_names_with_node(r: RegView, n: Seq<char>, node: NodeView)
    ensures
        forall|x: Seq<char>| #[trigger]
            names_of(proxy_registry::with_node(r, n, node)).contains(x) <==> (names_of(r).contains(x)
                || x == n),
{
    let a = names_of(r);
    let b = names_of(proxy_registry::with_node(r, n, node));
    assert forall|x: Seq<char>| #[trigger] b.contains(x) <==> (a.contains(x) || x == n) by {
        if a.contains(n) {
            assert(a.len() == b.len());
            assert forall|i: int| 0 <= i < a.len() implies a[i] == b[i] by {
                assert(r.names[i].0 == a[i]);
            }
            assert(a =~= b);
        } else {
            assert(b =~= a.push(n));
            if a.contains(x) {
                let i = choose|i: int| 0 <= i < a.len() && a[i] == x;
                assert(b[i] == x);
            }
            if x == n {
                assert(b[a.len() as int] == x);
            }
        }
    }
}

proof fn lemma_leaf_names(r: RegView, proxies: Seq<Options>, failed: Seq<usize>, n: nat)
    requires
        n <= proxies.len(),
    ensures
        within(names_of(r), names_of(proxy_registry::with_leaves(r, proxies, failed, n))),
        forall|i: int|
            0 <= i < n && proxy_registry::set_up(#[trigger] proxies[i]@, failed, i) ==> names_of(
                proxy_registry::with_leaves(r, proxies, failed, n),
            ).contains(yaml::str_option(proxies[i]@, "name"@)->0),
        forall|x: Seq<char>| #[trigger]
            names_of(proxy_registry::with_leaves(r, proxies, failed, n)).contains(x) ==> names_of(
                r,
            ).contains(x) || usable_name(proxies, failed, x),
    decreases n,
{
    if n > 0 {
        let m = (n - 1) as nat;
        lemma_leaf_names(r, proxies, failed, m);
        let before = proxy_registry::with_leaves(r, proxies, failed, m);
        let o = proxies[m as int]@;
        if proxy_registry::set_up(o, failed, m as int) {
            let name = yaml::str_option(o, "name"@)->0;
            lemma_names_with_node(before, name, NodeView::Leaf { proxy: m as int });
            assert(usable_name(proxies, failed, name));
        }
    }
}

/// Whether a configured proxy with this name has options that can be used, and could
/// be set up.
pub open spec fn usable_name(proxies: Seq<Options>, failed: Seq<usize>, x: Seq<char>) -> bool {
    exists|i: int|
        0 <= i < proxies.len() && proxy_registry::set_up(#[trigger] proxies[i]@, failed, i)
            && yaml::str_option(proxies[i]@, "name"@) == Some(x)
}

/// Whether a configured group has this name.
pub open spec fn group_name(groups: Seq<RawProxyGroup>, x: Seq<char>) -> bool {
    exists|i: int| 0 <= i < groups.len() && (#[trigger] groups[i]).name@ == x
}

proof fn lemma_pass_names(
    r: RegView,
    groups: Seq<RawProxyGroup>,
    left: Seq<int>,
    strict: bool,
    providers: Seq<Seq<char>>,
    store: bool,
)
    requires
        forall|k: int| 0 <= k < left.len() ==> 0 <= #[trigger] left[k] < groups.len(),
    ensures
        ({
            let (r2, still) = proxy_registry::group_pass(r, groups, left, strict, providers, store);
            &&& within(names_of(r), names_of(r2))
            &&& still.len() <= left.len()
            &&& forall|k: int| 0 <= k < still.len() ==> left.contains(#[trigger] still[k])
            &&& forall|k: int|
                0 <= k < left.len() ==> still.contains(#[trigger] left[k]) || names_of(
                    r2,
                ).contains(groups[left[k]].name@)
            &&& forall|x: Seq<char>| #[trigger]
                names_of(r2).contains(x) ==> names_of(r).contains(x) || group_name(groups, x)
        }),
    decreases left.len(),
{
    if left.len() > 0 {
        let rest = left.drop_last();
        assert forall|k: int| 0 <= k < rest.len() implies 0 <= #[trigger] rest[k]
            < groups.len() by {
            assert(rest[k] == left[k]);
        }
        lemma_pass_names(r, groups, rest, strict, providers, store);
        let (r1, still1) = proxy_registry::group_pass(r, groups, rest, strict, providers, store);
        let (r2, still) = proxy_registry::group_pass(r, groups, left, strict, providers, store);
        let i = left.last();
        assert(left[left.len() - 1] == i);
        let g = groups[i];
        let node = proxy_registry::group_node(r1, g, i, providers, store);
        lemma_names_with_node(r1, g.name@, node);
        assert(group_name(groups, g.name@));
        assert forall|k: int| 0 <= k < still.len() implies left.contains(#[trigger] still[k]) by {
            if k < still1.len() {
                assert(still[k] == still1[k]);
                assert(rest.contains(still1[k]));
                let j = choose|j: int| 0 <= j < rest.len() && rest[j] == still1[k];
                assert(left[j] == still[k]);
            }
        }
        assert forall|k: int| 0 <= k < left.len() implies still.contains(#[trigger] left[k])
            || names_of(r2).contains(groups[left[k]].name@) by {
            if k < rest.len() {
                assert(rest[k] == left[k]);
                if still1.contains(rest[k]) {
                    let j = choose|j: int| 0 <= j < still1.len() && still1[j] == rest[k];
                    assert(still[j] == left[k]);
                }
            } else {
                assert(left[k] == i);
                if r2 == r1 && still == still1.push(i) {
                    assert(still[still1.len() as int] == i);
                }
            }
        }
    }
}

proof fn lemma_group_names(
    r: RegView,
    groups: Seq<RawProxyGroup>,
    left: Seq<int>,
    providers: Seq<Seq<char>>,
    store: bool,
)
    requires
        forall|k: int| 0 <= k < left.len() ==> 0 <= #[trigger] left[k] < groups.len(),
    ensures
        ({
            let r2 = proxy_registry::with_groups(r, groups, left, providers, store);
            &&& within(names_of(r), names_of(r2))
            &&& forall|x: Seq<char>| #[trigger]
                names_of(r2).contains(x) ==> names_of(r).contains(x) || group_name(groups, x)
        }),
    decreases left.len(),
{
    if left.len() > 0 {
        lemma_pass_names(r, groups, left, true, providers, store);
        let (r2, still) = proxy_registry::group_pass(r, groups, left, true, providers, store);
        assert forall|k: int| 0 <= k < still.len() implies 0 <= #[trigger] still[k]
            < groups.len() by {
            assert(left.contains(still[k]));
        }
        if still.len() < left.len() {
            lemma_group_names(r2, groups, still, providers, store);
        } else {
            lemma_pass_names(r2, groups, still, false, providers, store);
        }
    }
}

proof fn lemma_dial_names(s: Dialing, edges: Seq<(Seq<char>, Seq<char>)>, needs: Seq<Seq<char>>)
    ensures
        ({
            let t = proxy_registry::dial_pass(s, edges, needs);
            &&& within(names_of(s.reg), names_of(t.reg))
            &&& within(names_of(t.reg), names_of(s.reg))
            &&& t.waiting.len() <= s.waiting.len() + edges.len()
        }),
    decreases edges.len(),
{
    if edges.len() > 0 {
        lemma_dial_names(s, edges.drop_last(), needs);
        let t = proxy_registry::dial_pass(s, edges.drop_last(), needs);
        let e = edges.last();
        match (proxy_registry::lookup(t.reg.names, e.0), proxy_registry::lookup(t.reg.names, e.1)) {
            (Some(inner), Some(dialer)) => {
                lemma_names_with_node(t.reg, e.0, NodeView::Dialed { inner, dialer });
                proxy_registry::lemma_lookup(t.reg.names, e.0);
            },
            _ => {},
        }
    }
}

proof fn lemma_dial_all_names(s: Dialing, needs: Seq<Seq<char>>)
    ensures
        within(names_of(s.reg), names_of(proxy_registry::dial_all(s, needs).reg)),
        within(names_of(proxy_registry::dial_all(s, needs).reg), names_of(s.reg)),
    decreases s.waiting.len(),
{
    if s.waiting.len() > 0 {
        let start = Dialing { waiting: Seq::empty(), ..s };
        lemma_dial_names(start, s.waiting, needs);
        let t = proxy_registry::dial_pass(start, s.waiting, needs);
        if t.waiting.len() < s.waiting.len() {
            lemma_dial_all_names(t, needs);
        }
    }
}

proof fn lemma_builtin_names(mark: Option<u32>, resolver: bool)
    ensures
        forall|x: Seq<char>| #[trigger]
            names_of(proxy_registry::builtins(mark, resolver)).contains(x) <==> (x == "DIRECT"@ || x
                == "REJECT"@ || x == "REJECT-DROP"@),
{
    let e = RegView { nodes: Seq::empty(), names: Seq::empty() };
    let d = NodeView::Direct { routing_mark: mark, resolver };
    lemma_names_with_node(e, "DIRECT"@, d);
    let r1 = proxy_registry::with_node(e, "DIRECT"@, d);
    lemma_names_with_node(r1, "REJECT"@, NodeView::Reject);
    let r2 = proxy_registry::with_node(r1, "REJECT"@, NodeView::Reject);
    lemma_names_with_node(r2, "REJECT-DROP"@, NodeView::RejectDrop);
}

/// Groups and dialers take no name away and add only those of groups and `GLOBAL`.
pub proof fn lemma_all_names(
    raw: RawConfig,
    failed: Seq<usize>,
    resolver: bool,
    providers: Seq<Seq<char>>,
    store: bool,
)
    ensures
        ({
            let leaves = leaves_of(raw, failed, resolver);
            let u = proxy_registry::undialed(raw, failed, resolver, providers, store);
            let f = proxy_registry::registry_of(raw, failed, resolver, providers, store).reg;
            let groups = proxy_registry::groups_in(raw);
            &&& within(names_of(leaves), names_of(u))
            &&& within(names_of(u), names_of(f))
            &&& within(names_of(f), names_of(u))
            &&& names_of(u).contains("GLOBAL"@)
            &&& forall|x: Seq<char>| #[trigger]
                names_of(u).contains(x) ==> names_of(leaves).contains(x) || group_name(groups, x)
                    || x == "GLOBAL"@
        }),
{
    let leaves = leaves_of(raw, failed, resolver);
    let groups = proxy_registry::groups_in(raw);
    let left = Seq::new(groups.len(), |i: int| i);
    lemma_group_names(leaves, groups, left, providers, store);
    let g = proxy_registry::with_groups(leaves, groups, left, providers, store);
    let u = proxy_registry::undialed(raw, failed, resolver, providers, store);
    if !names_of(g).contains("GLOBAL"@) {
        let node = NodeView::Group {
            section: None,
            kind: group::GroupKind::Select { persistent: store },
            members: proxy_registry::ids_of(g.names, proxy_registry::sorted(proxy_registry::keys(g.names))),
            providers: Seq::empty(),
        };
        lemma_names_with_node(g, "GLOBAL"@, node);
        assert(u == proxy_registry::with_node(g, "GLOBAL"@, node));
    } else {
        assert(u == g);
    }
    let edges = proxy_registry::dialer_edges(
        proxy_registry::proxies_in(raw),
        proxy_registry::proxies_in(raw).len(),
    );
    lemma_dial_all_names(
        Dialing { reg: u, settled: Seq::empty(), waiting: edges },
        proxy_registry::askers(edges),
    );
}

/// The registry of the built-in and configured proxies.
pub open spec fn leaves_of(raw: RawConfig, failed: Seq<usize>, resolver: bool) -> RegView {
    proxy_registry::with_leaves(
        proxy_registry::builtins(raw.routing_mark, resolver),
        proxy_registry::proxies_in(raw),
        failed,
        proxy_registry::proxies_in(raw).len(),
    )
}

/// Whatever is configured, the built-in proxies and the global selector exist.
pub proof fn law_built_ins_exist(
    raw: RawConfig,
    failed: Seq<usize>,
    resolver: bool,
    providers: Seq<Seq<char>>,
    store: bool,
)
    ensures
        ({
            let names = names_of(
                proxy_registry::registry_of(raw, failed, resolver, providers, store).reg,
            );
            &&& names.contains("DIRECT"@)
            &&& names.contains("REJECT"@)
            &&& names.contains("REJECT-DROP"@)
            &&& names.contains("GLOBAL"@)
        }),
{
    lemma_builtin_names(raw.routing_mark, resolver);
    let base = proxy_registry::builtins(raw.routing_mark, resolver);
    assert(names_of(base).contains("DIRECT"@));
    assert(names_of(base).contains("REJECT"@));
    assert(names_of(base).contains("REJECT-DROP"@));
    lemma_leaf_names(
        base,
        proxy_registry::proxies_in(raw),
        failed,
        proxy_registry::proxies_in(raw).len(),
    );
    let leaves = leaves_of(raw, failed, resolver);
    assert(names_of(leaves).contains("DIRECT"@));
    assert(names_of(leaves).contains("REJECT"@));
    assert(names_of(leaves).contains("REJECT-DROP"@));
    lemma_all_names(raw, failed, resolver, providers, store);
    let u = proxy_registry::undialed(raw, failed, resolver, providers, store);
    assert(names_of(u).contains("DIRECT"@));
    assert(names_of(u).contains("REJECT"@));
    assert(names_of(u).contains("REJECT-DROP"@));
    assert(names_of(u).contains("GLOBAL"@));
}

/// A proxy whose options can be used, and that could be set up, is registered under its
/// name.
pub proof fn law_usable_proxies_are_registered(
    raw: RawConfig,
    failed: Seq<usize>,
    resolver: bool,
    providers: Seq<Seq<char>>,
    store: bool,
    i: int,
)
    requires
        0 <= i < proxy_registry::proxies_in(raw).len(),
        proxy_registry::set_up(proxy_registry::proxies_in(raw)[i]@, failed, i),
    ensures
        names_of(proxy_registry::registry_of(raw, failed, resolver, providers, store).reg).contains(
            yaml::str_option(proxy_registry::proxies_in(raw)[i]@, "name"@)->0,
        ),
{
    let proxies = proxy_registry::proxies_in(raw);
    let base = proxy_registry::builtins(raw.routing_mark, resolver);
    lemma_leaf_names(base, proxies, failed, proxies.len());
    let name = yaml::str_option(proxies[i]@, "name"@)->0;
    let leaves = leaves_of(raw, failed, resolver);
    assert(names_of(leaves).contains(name));
    lemma_all_names(raw, failed, resolver, providers, store);
    let u = proxy_registry::undialed(raw, failed, resolver, providers, store);
    assert(names_of(u).contains(name));
}

/// Nothing else is registered: a name stands for a built-in proxy, the global
/// selector, a proxy that could be set up from options that can be used, or a group.
/// So a proxy with options that cannot be used, or that could not be set up, is skipped.
pub proof fn law_nothing_else_is_registered(
    raw: RawConfig,
    failed: Seq<usize>,
    resolver: bool,
    providers: Seq<Seq<char>>,
    store: bool,
    x: Seq<char>,
)
    requires
        names_of(
            proxy_registry::registry_of(raw, failed, resolver, providers, store).reg,
        ).contains(x),
    ensures
        x == "DIRECT"@ || x == "REJECT"@ || x == "REJECT-DROP"@ || x == "GLOBAL"@ || usable_name(
            proxy_registry::proxies_in(raw),
            failed,
            x,
        ) || group_name(proxy_registry::groups_in(raw), x),
{
    let base = proxy_registry::builtins(raw.routing_mark, resolver);
    lemma_builtin_names(raw.routing_mark, resolver);
    lemma_leaf_names(
        base,
        proxy_registry::proxies_in(raw),
        failed,
        proxy_registry::proxies_in(raw).len(),
    );
    lemma_all_names(raw, failed, resolver, providers, store);
    let u = proxy_registry::undialed(raw, failed, resolver, providers, store);
    assert(names_of(u).contains(x));
    let leaves = leaves_of(raw, failed, resolver);
    if names_of(leaves).contains(x) {
        assert(names_of(base).contains(x) || usable_name(
            proxy_registry::proxies_in(raw),
            failed,
            x,
        ));
    }
}

/// Every node that a node refers to comes before a position.
pub open spec fn refers_below(node: NodeView, n: int) -> bool {
    match node {
        NodeView::Group { members, .. } => forall|k: int|
            0 <= k < members.len() ==> 0 <= #[trigger] members[k] < n,
        NodeView::Dialed { inner, dialer } => 0 <= inner < n && 0 <= dialer < n,
        _ => true,
    }
}

/// Every name is bound to a node that exists, and every node refers only to nodes
/// that were made before it.
pub open spec fn layered(r: RegView) -> bool {
    &&& proxy_registry::reg_ok(r)
    &&& forall|i: int| 0 <= i < r.nodes.len() ==> refers_below(#[trigger] r.nodes[i], i)
}

proof fn lemma_layered_node(r: RegView, n: Seq<char>, node: NodeView)
    requires
        layered(r),
        refers_below(node, r.nodes.len() as int),
    ensures
        layered(proxy_registry::with_node(r, n, node)),
{
    proxy_registry::lemma_bind_ok(r, n, node);
}

/// A name of a registry stands for a node that exists.
pub proof fn lemma_bound(r: RegView, n: Seq<char>)
    requires
        proxy_registry::reg_ok(r),
        names_of(r).contains(n),
    ensures
        proxy_registry::lookup(r.names, n) is Some,
        0 <= proxy_registry::lookup(r.names, n)->0 < r.nodes.len(),
{
    proxy_registry::lemma_lookup(r.names, n);
    let id = proxy_registry::lookup(r.names, n)->0;
    let i = choose|i: int| 0 <= i < r.names.len() && (#[trigger] r.names[i]) == (n, id);
    assert(r.names[i].1 == id);
}

proof fn lemma_layered_leaves(r: RegView, proxies: Seq<Options>, failed: Seq<usize>, n: nat)
    requires
        layered(r),
    ensures
        layered(proxy_registry::with_leaves(r, proxies, failed, n)),
    decreases n,
{
    if n > 0 {
        let m = (n - 1) as nat;
        lemma_layered_leaves(r, proxies, failed, m);
        let o = proxies[n - 1]@;
        lemma_layered_node(
            proxy_registry::with_leaves(r, proxies, failed, m),
            yaml::str_option(o, "name"@)->0,
            NodeView::Leaf { proxy: n - 1 },
        );
    }
}

proof fn lemma_layered_pass(
    r: RegView,
    groups: Seq<RawProxyGroup>,
    left: Seq<int>,
    strict: bool,
    providers: Seq<Seq<char>>,
    store: bool,
)
    requires
        layered(r),
    ensures
        layered(proxy_registry::group_pass(r, groups, left, strict, providers, store).0),
        proxy_registry::group_pass(r, groups, left, strict, providers, store).1.len() <= left.len(),
    decreases left.len(),
{
    if left.len() > 0 {
        let rest = left.drop_last();
        lemma_layered_pass(r, groups, rest, strict, providers, store);
        let r1 = proxy_registry::group_pass(r, groups, rest, strict, providers, store).0;
        let i = left.last();
        let g = groups[i];
        let node = proxy_registry::group_node(r1, g, i, providers, store);
        let list = group::members_of(g, names_of(r1));
        proxy_registry::lemma_members_known(g, names_of(r1));
        let members = proxy_registry::ids_of(r1.names, list);
        assert forall|k: int| 0 <= k < members.len() implies 0 <= #[trigger] members[k]
            < r1.nodes.len() by {
            lemma_bound(r1, list[k]);
        }
        lemma_layered_node(r1, g.name@, node);
    }
}

proof fn lemma_layered_groups(
    r: RegView,
    groups: Seq<RawProxyGroup>,
    left: Seq<int>,
    providers: Seq<Seq<char>>,
    store: bool,
)
    requires
        layered(r),
    ensures
        layered(proxy_registry::with_groups(r, groups, left, providers, store)),
    decreases left.len(),
{
    if left.len() > 0 {
        lemma_layered_pass(r, groups, left, true, providers, store);
        let (r2, still) = proxy_registry::group_pass(r, groups, left, true, providers, store);
        if still.len() < left.len() {
            lemma_layered_groups(r2, groups, still, providers, store);
        } else {
            lemma_layered_pass(r2, groups, still, false, providers, store);
        }
    }
}

proof fn lemma_layered_dials(s: Dialing, edges: Seq<(Seq<char>, Seq<char>)>, needs: Seq<Seq<char>>)
    requires
        layered(s.reg),
    ensures
        layered(proxy_registry::dial_pass(s, edges, needs).reg),
    decreases edges.len(),
{
    if edges.len() > 0 {
        lemma_layered_dials(s, edges.drop_last(), needs);
        let t = proxy_registry::dial_pass(s, edges.drop_last(), needs);
        let e = edges.last();
        match (proxy_registry::lookup(t.reg.names, e.0), proxy_registry::lookup(t.reg.names, e.1)) {
            (Some(inner), Some(dialer)) => {
                proxy_registry::lemma_lookup(t.reg.names, e.0);
                proxy_registry::lemma_lookup(t.reg.names, e.1);
                lemma_bound(t.reg, e.0);
                lemma_bound(t.reg, e.1);
                lemma_layered_node(t.reg, e.0, NodeView::Dialed { inner, dialer });
            },
            _ => {},
        }
    }
}

proof fn lemma_layered_dial_all(s: Dialing, needs: Seq<Seq<char>>)
    requires
        layered(s.reg),
    ensures
        layered(proxy_registry::dial_all(s, needs).reg),
    decreases s.waiting.len(),
{
    if s.waiting.len() > 0 {
        let start = Dialing { waiting: Seq::empty(), ..s };
        lemma_layered_dials(start, s.waiting, needs);
        let t = proxy_registry::dial_pass(start, s.waiting, needs);
        if t.waiting.len() < s.waiting.len() {
            lemma_layered_dial_all(t, needs);
        }
    }
}

/// References never run in a circle: whatever is configured, each group and each
/// dialed proxy refers only to nodes that were made before it.
pub proof fn law_references_never_run_in_a_circle(
    raw: RawConfig,
    failed: Seq<usize>,
    resolver: bool,
    providers: Seq<Seq<char>>,
    store: bool,
)
    ensures
        layered(proxy_registry::registry_of(raw, failed, resolver, providers, store).reg),
{
    let e = RegView { nodes: Seq::empty(), names: Seq::empty() };
    let d = NodeView::Direct { routing_mark: raw.routing_mark, resolver };
    lemma_layered_node(e, "DIRECT"@, d);
    let r1 = proxy_registry::with_node(e, "DIRECT"@, d);
    lemma_layered_node(r1, "REJECT"@, NodeView::Reject);
    let r2 = proxy_registry::with_node(r1, "REJECT"@, NodeView::Reject);
    lemma_layered_node(r2, "REJECT-DROP"@, NodeView::RejectDrop);
    let base = proxy_registry::builtins(raw.routing_mark, resolver);
    lemma_layered_leaves(
        base,
        proxy_registry::proxies_in(raw),
        failed,
        proxy_registry::proxies_in(raw).len(),
    );
    let groups = proxy_registry::groups_in(raw);
    let left = Seq::new(groups.len(), |i: int| i);
    let leaves = leaves_of(raw, failed, resolver);
    lemma_layered_groups(leaves, groups, left, providers, store);
    let g = proxy_registry::with_groups(leaves, groups, left, providers, store);
    let list = proxy_registry::sorted(names_of(g));
    proxy_registry::lemma_sorted_members(names_of(g));
    let members = proxy_registry::ids_of(g.names, list);
    assert forall|k: int| 0 <= k < members.len() implies 0 <= #[trigger] members[k]
        < g.nodes.len() by {
        assert(list.contains(list[k]));
        lemma_bound(g, list[k]);
    }
    lemma_layered_node(
        g,
        "GLOBAL"@,
        NodeView::Group {
            section: None,
            kind: group::GroupKind::Select { persistent: store },
            members,
            providers: Seq::empty(),
        },
    );
    let u = proxy_registry::undialed(raw, failed, resolver, providers, store);
    let edges = proxy_registry::dialer_edges(
        proxy_registry::proxies_in(raw),
        proxy_registry::proxies_in(raw).len(),
    );
    lemma_layered_dial_all(
        Dialing { reg: u, settled: Seq::empty(), waiting: edges },
        proxy_registry::askers(edges),
    );
}

} // verus!
