//! What stands under the names of a registry.

use crate::config::dialer_laws;
use crate::config::group;
use crate::config::group::GroupKind;
use crate::config::outbound;
use crate::config::proxy::Opts;
use crate::config::proxy_registry;
use crate::config::proxy_registry::{Names, NodeView, Outside, RebuildError, RebuildResult, RegView};
use crate::config::raw::{RawConfig, RawProxyGroup};
use crate::config::registry_laws;
use crate::config::yaml;
use crate::config::yaml::Options;
use crate::text;
use vstd::prelude::*;
use vstd::string::*;

verus! {

/// What stands under a name.
pub open spec fn under(r: RegView, n: Seq<char>) -> Option<NodeView> {
    match proxy_registry::lookup(r.names, n) {
        Some(id) => Some(r.nodes[id]),
        None => None,
    }
}

/// Putting something under a name puts it there, and leaves what stands under every
/// other name.
pub proof fn law_names_are_bound_one_by_one(r: RegView, n: Seq<char>, node: NodeView, x: Seq<char>)
    requires
        proxy_registry::reg_ok(r),
    ensures
        under(proxy_registry::with_node(r, n, node), n) == Some(node),
        x != n ==> under(proxy_registry::with_node(r, n, node), x) == under(r, x),
        proxy_registry::reg_ok(proxy_registry::with_node(r, n, node)),
{
    let id = r.nodes.len() as int;
    dialer_laws::lemma_lookup_bind(r.names, n, id, n);
    dialer_laws::lemma_lookup_bind(r.names, n, id, x);
    proxy_registry::lemma_bind_ok(r, n, node);
    if x != n {
        if let Some(k) = proxy_registry::lookup(r.names, x) {
            proxy_registry::lemma_lookup(r.names, x);
            let i = choose|i: int| 0 <= i < r.names.len() && (#[trigger] r.names[i]) == (x, k);
            assert(0 <= r.names[i].1 < r.nodes.len());
        }
    }
}

proof fn lemma_built_in_names()
    ensures
        "DIRECT"@ != "REJECT"@ && "DIRECT"@ != "REJECT-DROP"@ && "REJECT"@ != "REJECT-DROP"@,
        "GLOBAL"@ != "DIRECT"@ && "GLOBAL"@ != "REJECT"@ && "GLOBAL"@ != "REJECT-DROP"@,
{
    reveal_strlit("DIRECT");
    reveal_strlit("REJECT");
    reveal_strlit("REJECT-DROP");
    reveal_strlit("GLOBAL");
    assert("DIRECT"@.len() == 6 && "REJECT"@.len() == 6 && "REJECT-DROP"@.len() == 11
        && "GLOBAL"@.len() == 6);
    assert("DIRECT"@[0] == 'D' && "REJECT"@[0] == 'R' && "GLOBAL"@[0] == 'G');
}

/// What is built in does what its name says: goes straight on, with the mark and the
/// resolver of the configuration, refuses, or drops.
pub proof fn law_built_ins_do_what_they_say(mark: Option<u32>, resolver: bool)
    ensures
        ({
            let r = proxy_registry::builtins(mark, resolver);
            &&& proxy_registry::reg_ok(r)
            &&& r.names.len() == 3
            &&& under(r, "DIRECT"@) == Some(NodeView::Direct { routing_mark: mark, resolver })
            &&& under(r, "REJECT"@) == Some(NodeView::Reject)
            &&& under(r, "REJECT-DROP"@) == Some(NodeView::RejectDrop)
        }),
{
    lemma_built_in_names();
    let none = RegView { nodes: Seq::empty(), names: Seq::empty() };
    let direct = NodeView::Direct { routing_mark: mark, resolver };
    let a = proxy_registry::with_node(none, "DIRECT"@, direct);
    let b = proxy_registry::with_node(a, "REJECT"@, NodeView::Reject);
    law_names_are_bound_one_by_one(none, "DIRECT"@, direct, "DIRECT"@);
    law_names_are_bound_one_by_one(a, "REJECT"@, NodeView::Reject, "DIRECT"@);
    law_names_are_bound_one_by_one(b, "REJECT-DROP"@, NodeView::RejectDrop, "DIRECT"@);
    law_names_are_bound_one_by_one(b, "REJECT-DROP"@, NodeView::RejectDrop, "REJECT"@);
    assert(a.names =~= seq![("DIRECT"@, 0int)]);
    assert(proxy_registry::keys(a.names)[0] == "DIRECT"@);
    assert(!proxy_registry::keys(a.names).contains("REJECT"@));
    assert(b.names =~= seq![("DIRECT"@, 0int), ("REJECT"@, 1int)]);
    assert(proxy_registry::keys(b.names)[0] == "DIRECT"@ && proxy_registry::keys(b.names)[1]
        == "REJECT"@);
    assert(!proxy_registry::keys(b.names).contains("REJECT-DROP"@));
}

/// A proxy is usable where its options can be read and it could be set up.
pub open spec fn usable_at(proxies: Seq<Options>, failed: Seq<usize>, i: int, x: Seq<char>) -> bool {
    &&& outbound::proxy_error(proxies[i]@) is None
    &&& !(exists|k: int| 0 <= k < failed.len() && #[trigger] failed[k] == i)
    &&& yaml::str_option(proxies[i]@, "name"@) == Some(x)
}

proof fn lemma_usable(proxies: Seq<Options>, failed: Seq<usize>, i: int)
    ensures
        proxy_registry::set_up(proxies[i]@, failed, i) <==> usable_at(
            proxies,
            failed,
            i,
            yaml::str_option(proxies[i]@, "name"@)->0,
        ),
{
    let v = proxy_registry::ints(failed);
    if v.contains(i) {
        let k = choose|k: int| 0 <= k < v.len() && v[k] == i;
        assert(failed[k] == i);
    }
    if exists|k: int| 0 <= k < failed.len() && #[trigger] failed[k] == i {
        let k = choose|k: int| 0 <= k < failed.len() && #[trigger] failed[k] == i;
        assert(v[k] == i);
    }
}

/// Under the name of a proxy stands that proxy: the last usable one of that name. A name
/// that no usable proxy has keeps what stood under it.
pub proof fn law_proxies_stand_under_their_names(
    r: RegView,
    proxies: Seq<Options>,
    failed: Seq<usize>,
    n: nat,
    i: int,
    x: Seq<char>,
)
    requires
        proxy_registry::reg_ok(r),
        n <= proxies.len(),
        -1 <= i < n,
        i >= 0 ==> usable_at(proxies, failed, i, x),
        forall|j: int| i < j < n ==> !usable_at(proxies, failed, j, x),
    ensures
        proxy_registry::reg_ok(proxy_registry::with_leaves(r, proxies, failed, n)),
        i >= 0 ==> under(proxy_registry::with_leaves(r, proxies, failed, n), x) == Some(
            NodeView::Leaf { proxy: i },
        ),
        i == -1 ==> under(proxy_registry::with_leaves(r, proxies, failed, n), x) == under(r, x),
    decreases n,
{
    if n > 0 {
        let m = (n - 1) as nat;
        let o = proxies[n - 1]@;
        lemma_usable(proxies, failed, n - 1);
        let before = proxy_registry::with_leaves(r, proxies, failed, m);
        if i < n - 1 {
            law_proxies_stand_under_their_names(r, proxies, failed, m, i, x);
        } else {
            lemma_leaves_ok(r, proxies, failed, m);
        }
        if proxy_registry::set_up(o, failed, n - 1) {
            let name = yaml::str_option(o, "name"@)->0;
            law_names_are_bound_one_by_one(before, name, NodeView::Leaf { proxy: n - 1 }, x);
            if i < n - 1 {
                assert(!usable_at(proxies, failed, n - 1, x));
            }
        }
    }
}

proof fn lemma_leaves_ok(r: RegView, proxies: Seq<Options>, failed: Seq<usize>, n: nat)
    requires
        proxy_registry::reg_ok(r),
    ensures
        proxy_registry::reg_ok(proxy_registry::with_leaves(r, proxies, failed, n)),
    decreases n,
{
    if n > 0 {
        let before = proxy_registry::with_leaves(r, proxies, failed, (n - 1) as nat);
        lemma_leaves_ok(r, proxies, failed, (n - 1) as nat);
        let o = proxies[n - 1]@;
        proxy_registry::lemma_bind_ok(
            before,
            yaml::str_option(o, "name"@)->0,
            NodeView::Leaf { proxy: n - 1 },
        );
    }
}

/// Where the configuration has no group or proxy of that name, everything can be chosen
/// by hand from one group that holds every other name, in order.
pub proof fn law_one_group_holds_everything(r: RegView, store: bool, x: Seq<char>)
    requires
        proxy_registry::reg_ok(r),
    ensures
        proxy_registry::keys(r.names).contains("GLOBAL"@) ==> proxy_registry::with_global(r, store)
            == r,
        !proxy_registry::keys(r.names).contains("GLOBAL"@) ==> ({
            let g = proxy_registry::with_global(r, store);
            &&& under(g, "GLOBAL"@) matches Some(NodeView::Group {
                section,
                kind,
                members,
                providers,
            })
            &&& section is None
            &&& kind == GroupKind::Select { persistent: store }
            &&& members.len() == r.names.len()
            &&& providers.len() == 0
            &&& forall|i: int|
                0 <= i < members.len() ==> proxy_registry::lookup(
                    r.names,
                    proxy_registry::sorted(proxy_registry::keys(r.names))[i],
                ) == Some(#[trigger] members[i])
            &&& x != "GLOBAL"@ ==> under(g, x) == under(r, x)
        }),
{
    if !proxy_registry::keys(r.names).contains("GLOBAL"@) {
        let names = proxy_registry::keys(r.names);
        let list = proxy_registry::sorted(names);
        proxy_registry::lemma_sorted_members(names);
        let node = NodeView::Group {
            section: None,
            kind: GroupKind::Select { persistent: store },
            members: proxy_registry::ids_of(r.names, list),
            providers: Seq::empty(),
        };
        law_names_are_bound_one_by_one(r, "GLOBAL"@, node, x);
        let members = proxy_registry::ids_of(r.names, list);
        assert forall|i: int| 0 <= i < members.len() implies proxy_registry::lookup(
            r.names,
            list[i],
        ) == Some(#[trigger] members[i]) by {
            assert(list.contains(list[i]));
            proxy_registry::lemma_lookup(r.names, list[i]);
        }
    }
}

proof fn lemma_before_total(a: Seq<char>, b: Seq<char>)
    ensures
        !(proxy_registry::before(a, b) && proxy_registry::before(b, a)),
        proxy_registry::before(a, b) || proxy_registry::before(b, a) || a == b,
    decreases a.len(),
{
    if a.len() > 0 && b.len() > 0 && a[0] == b[0] {
        lemma_before_total(a.skip(1), b.skip(1));
        if a.skip(1) == b.skip(1) {
            assert(a =~= seq![a[0]] + a.skip(1));
            assert(b =~= seq![b[0]] + b.skip(1));
        }
    } else if a.len() == 0 && b.len() == 0 {
        assert(a =~= b);
    }
}

proof fn lemma_before_transitive(a: Seq<char>, b: Seq<char>, c: Seq<char>)
    requires
        !proxy_registry::before(b, a),
        !proxy_registry::before(c, b),
    ensures
        !proxy_registry::before(c, a),
    decreases a.len(),
{
    if a.len() > 0 && b.len() > 0 && c.len() > 0 {
        if a[0] == b[0] && b[0] == c[0] {
            lemma_before_transitive(a.skip(1), b.skip(1), c.skip(1));
        }
    }
}

/// One text comes before another where it is the beginning of it, or where it has the
/// smaller character at the first place at which they differ. Of two texts that are not
/// the same, one comes before the other.
pub proof fn law_texts_are_ordered_by_their_characters(a: Seq<char>, b: Seq<char>, k: int)
    requires
        0 <= k <= a.len(),
        k <= b.len(),
        a.take(k) == b.take(k),
    ensures
        k == a.len() && k < b.len() ==> proxy_registry::before(a, b),
        k < a.len() && k < b.len() && a[k] < b[k] ==> proxy_registry::before(a, b),
        !(proxy_registry::before(a, b) && proxy_registry::before(b, a)),
        a != b ==> proxy_registry::before(a, b) || proxy_registry::before(b, a),
    decreases k,
{
    lemma_before_total(a, b);
    if k > 0 {
        assert(a.take(k)[0] == a[0] && b.take(k)[0] == b[0]);
        assert(a[0] == b[0]);
        assert(a.skip(1).take(k - 1) =~= a.take(k).skip(1));
        assert(b.skip(1).take(k - 1) =~= b.take(k).skip(1));
        law_texts_are_ordered_by_their_characters(a.skip(1), b.skip(1), k - 1);
    }
}

/// No text stands before one that it should come behind.
pub open spec fn in_order(s: Seq<Seq<char>>) -> bool {
    forall|i: int, j: int|
        0 <= i < j < s.len() ==> !proxy_registry::before(#[trigger] s[j], #[trigger] s[i])
}

proof fn lemma_inserted(s: Seq<Seq<char>>, t: Seq<char>)
    requires
        in_order(s),
    ensures
        in_order(proxy_registry::inserted(s, t)),
        proxy_registry::inserted(s, t).to_multiset() == s.to_multiset().insert(t),
        proxy_registry::inserted(s, t).len() == s.len() + 1,
        forall|i: int|
            0 <= i < proxy_registry::inserted(s, t).len() ==> s.contains(
                #[trigger] proxy_registry::inserted(s, t)[i],
            ) || proxy_registry::inserted(s, t)[i] == t,
    decreases s.len(),
{
    broadcast use vstd::seq_lib::group_to_multiset_ensures;

    let all = proxy_registry::inserted(s, t);
    if s.len() == 0 || !proxy_registry::before(t, s.last()) {
        assert forall|i: int, j: int| 0 <= i < j < all.len() implies !proxy_registry::before(
            #[trigger] all[j],
            #[trigger] all[i],
        ) by {
            if j == s.len() && i < s.len() - 1 {
                assert(!proxy_registry::before(s[s.len() - 1], s[i]));
                lemma_before_transitive(s[i], s.last(), t);
            }
        }
        assert forall|i: int| 0 <= i < all.len() implies s.contains(#[trigger] all[i]) || all[i]
            == t by {
            if i < s.len() {
                assert(s[i] == all[i]);
            }
        }
    } else {
        let r = s.drop_last();
        assert forall|i: int, j: int| 0 <= i < j < r.len() implies !proxy_registry::before(
            #[trigger] r[j],
            #[trigger] r[i],
        ) by {
            assert(r[j] == s[j] && r[i] == s[i]);
        }
        lemma_inserted(r, t);
        let part = proxy_registry::inserted(r, t);
        assert(all == part.push(s.last()));
        assert forall|i: int| 0 <= i < part.len() implies !proxy_registry::before(
            s.last(),
            #[trigger] part[i],
        ) by {
            if r.contains(part[i]) {
                let k = choose|k: int| 0 <= k < r.len() && r[k] == part[i];
                assert(s[k] == r[k]);
                assert(!proxy_registry::before(s[s.len() - 1], s[k]));
            } else {
                lemma_before_total(t, s.last());
            }
        }
        assert forall|i: int, j: int| 0 <= i < j < all.len() implies !proxy_registry::before(
            #[trigger] all[j],
            #[trigger] all[i],
        ) by {
            if j < part.len() {
                assert(all[j] == part[j] && all[i] == part[i]);
            } else {
                assert(all[i] == part[i]);
            }
        }
        assert forall|i: int| 0 <= i < all.len() implies s.contains(#[trigger] all[i]) || all[i]
            == t by {
            if i < part.len() {
                assert(all[i] == part[i]);
                if r.contains(part[i]) {
                    let k = choose|k: int| 0 <= k < r.len() && r[k] == part[i];
                    assert(s[k] == part[i]);
                }
            } else {
                assert(s[s.len() - 1] == all[i]);
            }
        }
        assert(r.push(s.last()) =~= s);
        assert(r.to_multiset().insert(s.last()).insert(t) =~= r.to_multiset().insert(t).insert(
            s.last(),
        ));
    }
}

/// Sorted names are the same names, each as often as before, and in order.
pub proof fn law_sorted_names_are_the_same_in_order(s: Seq<Seq<char>>)
    ensures
        in_order(proxy_registry::sorted(s)),
        proxy_registry::sorted(s).to_multiset() == s.to_multiset(),
    decreases s.len(),
{
    broadcast use vstd::seq_lib::group_to_multiset_ensures;

    if s.len() > 0 {
        let r = s.drop_last();
        law_sorted_names_are_the_same_in_order(r);
        lemma_inserted(proxy_registry::sorted(r), s.last());
        assert(r.push(s.last()) =~= s);
    }
}

/// A proxy is reached through another where its options name one that is not itself; an
/// empty name, or a proxy without a name, asks for none.
pub proof fn law_who_asks_for_a_dialer(o: Opts)
    ensures
        (match (yaml::str_option(o, "name"@), yaml::str_option(o, "dialer-proxy"@)) {
            (Some(n), Some(d)) => {
                &&& d.len() > 0 && d != n ==> proxy_registry::dialer_edge(o) == Some((n, d))
                &&& d.len() == 0 || d == n ==> proxy_registry::dialer_edge(o) is None
            },
            _ => proxy_registry::dialer_edge(o) is None,
        }),
{
}

/// Each proxy that asks for a dialer is heard, in the order of the configuration.
pub proof fn law_every_proxy_that_asks_is_heard(proxies: Seq<Options>, n: nat, i: int)
    requires
        n <= proxies.len(),
        0 <= i < n,
    ensures
        proxy_registry::dialer_edge(proxies[i]@) matches Some(e) ==> proxy_registry::dialer_edges(
            proxies,
            n,
        ).contains(e),
        proxy_registry::dialer_edges(proxies, n).len() <= n,
        forall|k: int|
            0 <= k < proxy_registry::dialer_edges(proxies, n).len() ==> exists|j: int|
                0 <= j < n && proxy_registry::dialer_edge(#[trigger] proxies[j]@) == Some(
                    #[trigger] proxy_registry::dialer_edges(proxies, n)[k],
                ),
    decreases n,
{
    let m = (n - 1) as nat;
    let all = proxy_registry::dialer_edges(proxies, n);
    let had = proxy_registry::dialer_edges(proxies, m);
    if m > 0 {
        law_every_proxy_that_asks_is_heard(proxies, m, if i < m {
            i
        } else {
            0
        });
    } else {
        assert(had.len() == 0);
    }
    if let Some(e) = proxy_registry::dialer_edge(proxies[i]@) {
        if i < m {
            let k = had.index_of(e);
            assert(had.contains(e));
            assert(all[k] == e);
        } else {
            assert(all[all.len() - 1] == e);
        }
    }
    assert forall|k: int| 0 <= k < all.len() implies exists|j: int|
        0 <= j < n && proxy_registry::dialer_edge(#[trigger] proxies[j]@) == Some(
            #[trigger] all[k],
        ) by {
        if k < had.len() {
            assert(all[k] == had[k]);
            let j = choose|j: int|
                0 <= j < m && proxy_registry::dialer_edge(#[trigger] proxies[j]@) == Some(had[k]);
            assert(proxy_registry::dialer_edge(proxies[j]@) == Some(all[k]));
        } else {
            assert(proxy_registry::dialer_edge(proxies[n - 1]@) == Some(all[k]));
        }
    }
}

/// A rebuild fails exactly where the databases could not be read, where the blocks of
/// rules could not be read and there are any, or where a rule refers to a block that is
/// not defined; the first of these is told.
pub proof fn law_when_a_rebuild_fails(
    raw: RawConfig,
    resolver: bool,
    providers: Seq<Seq<char>>,
    store: bool,
    outside: Outside,
    r: Result<RebuildResult, RebuildError>,
)
    requires
        proxy_registry::rebuild_ok(raw, resolver, providers, store, outside, r),
    ensures
        ({
            let blocks = raw.sub_rules matches Some(v) && v@.len() > 0;
            let unread = outside.blocks is Err && blocks;
            &&& r is Err <==> outside.databases is Err || unread || group::first_unknown(
                text::views(outside.references@),
                proxy_registry::block_names(raw),
                0,
            ) is Some
            &&& outside.databases is Err ==> (r matches Err(RebuildError::Databases(e)) && e@
                == outside.databases->Err_0@)
            &&& outside.databases is Ok && unread ==> (r matches Err(RebuildError::Blocks(e)) && e@
                == outside.blocks->Err_0@)
        }),
{
}

/// A rule refers to a block by what stands behind its last comma; any other rule refers
/// to none. Every reference is found, in the order of the rules.
pub proof fn law_references_are_found(a: Seq<Seq<char>>, b: Seq<Seq<char>>, x: Seq<char>)
    ensures
        proxy_registry::references_in(a + b) == proxy_registry::references_in(a)
            + proxy_registry::references_in(b),
        proxy_registry::reference_in(x) matches Some(n) ==> proxy_registry::references_in(seq![x])
            == seq![n],
        proxy_registry::reference_in(x) is None ==> proxy_registry::references_in(seq![x]).len()
            == 0,
        proxy_registry::reference_in(x) is Some <==> "SUB-RULE,"@.is_prefix_of(text::trimmed(x)),
        proxy_registry::reference_in(x) matches Some(n) ==> !n.contains(','),
    decreases b.len(),
{
    assert(seq![x].drop_last() =~= Seq::<Seq<char>>::empty());
    assert(proxy_registry::references_in(Seq::empty()) =~= Seq::<Seq<char>>::empty());
    if let Some(n) = proxy_registry::reference_in(x) {
        assert(Seq::<Seq<char>>::empty().push(n) =~= seq![n]);
        let p = text::parts(text::trimmed(x), ',');
        crate::text_laws::law_join_undoes_split(text::trimmed(x), ',');
        assert(!p[p.len() - 1].contains(','));
        let (lo, hi) = crate::text_laws::law_trimming_takes_white_space_off_the_ends(p.last());
        if n.contains(',') {
            let k = choose|k: int| 0 <= k < n.len() && n[k] == ',';
            assert(p.last()[lo + k] == ',');
        }
    }
    let y = proxy_registry::references_in(a);
    if b.len() == 0 {
        assert(a + b =~= a);
        assert(y + proxy_registry::references_in(b) =~= y);
    } else {
        let r = b.drop_last();
        law_references_are_found(a, r, x);
        assert((a + b).drop_last() =~= a + r);
        assert((a + b).last() == b.last());
        if let Some(n) = proxy_registry::reference_in(b.last()) {
            let z = proxy_registry::references_in(r);
            assert(y + z.push(n) =~= (y + z).push(n));
        }
    }
}

proof fn lemma_pass_keeps(
    r: RegView,
    groups: Seq<RawProxyGroup>,
    left: Seq<int>,
    strict: bool,
    providers: Seq<Seq<char>>,
    store: bool,
    x: Seq<char>,
)
    requires
        proxy_registry::reg_ok(r),
        forall|k: int| 0 <= k < left.len() ==> 0 <= #[trigger] left[k] < groups.len(),
        forall|k: int| 0 <= k < groups.len() ==> (#[trigger] groups[k]).name@ != x,
    ensures
        ({
            let (t, still) = proxy_registry::group_pass(r, groups, left, strict, providers, store);
            &&& proxy_registry::reg_ok(t)
            &&& under(t, x) == under(r, x)
            &&& still.len() <= left.len()
            &&& forall|k: int| 0 <= k < still.len() ==> 0 <= #[trigger] still[k] < groups.len()
        }),
    decreases left.len(),
{
    if left.len() > 0 {
        let rest = left.drop_last();
        assert forall|k: int| 0 <= k < rest.len() implies 0 <= #[trigger] rest[k] < groups.len() by {
            assert(rest[k] == left[k]);
        }
        lemma_pass_keeps(r, groups, rest, strict, providers, store, x);
        let (t, still) = proxy_registry::group_pass(r, groups, rest, strict, providers, store);
        let i = left[left.len() - 1];
        let g = groups[i];
        law_names_are_bound_one_by_one(
            t,
            g.name@,
            proxy_registry::group_node(t, g, i, providers, store),
            x,
        );
    }
}

proof fn lemma_groups_keep(
    r: RegView,
    groups: Seq<RawProxyGroup>,
    left: Seq<int>,
    providers: Seq<Seq<char>>,
    store: bool,
    x: Seq<char>,
)
    requires
        proxy_registry::reg_ok(r),
        forall|k: int| 0 <= k < left.len() ==> 0 <= #[trigger] left[k] < groups.len(),
        forall|k: int| 0 <= k < groups.len() ==> (#[trigger] groups[k]).name@ != x,
    ensures
        proxy_registry::reg_ok(proxy_registry::with_groups(r, groups, left, providers, store)),
        under(proxy_registry::with_groups(r, groups, left, providers, store), x) == under(r, x),
    decreases left.len(),
{
    if left.len() > 0 {
        lemma_pass_keeps(r, groups, left, true, providers, store, x);
        let (t, still) = proxy_registry::group_pass(r, groups, left, true, providers, store);
        if still.len() < left.len() {
            lemma_groups_keep(t, groups, still, providers, store, x);
        } else {
            lemma_pass_keeps(t, groups, still, false, providers, store, x);
        }
    }
}

/// Before dialers are put in place, what stands under the name of a usable proxy is that
/// proxy, and what stands under a built-in name is what is built in, unless a group or a
/// usable proxy of the configuration has the name.
pub proof fn law_what_is_configured_is_found(
    raw: RawConfig,
    failed: Seq<usize>,
    resolver: bool,
    providers: Seq<Seq<char>>,
    store: bool,
    i: int,
    x: Seq<char>,
)
    requires
        -1 <= i < proxy_registry::proxies_in(raw).len(),
        i >= 0 ==> usable_at(proxy_registry::proxies_in(raw), failed, i, x),
        forall|j: int|
            i < j < proxy_registry::proxies_in(raw).len() ==> !usable_at(
                proxy_registry::proxies_in(raw),
                failed,
                j,
                x,
            ),
        forall|k: int|
            0 <= k < proxy_registry::groups_in(raw).len() ==> (
            #[trigger] proxy_registry::groups_in(raw)[k]).name@ != x,
        x != "GLOBAL"@,
    ensures
        ({
            let u = proxy_registry::undialed(raw, failed, resolver, providers, store);
            &&& i >= 0 ==> under(u, x) == Some(NodeView::Leaf { proxy: i })
            &&& i == -1 && x == "DIRECT"@ ==> under(u, x) == Some(
                NodeView::Direct { routing_mark: raw.routing_mark, resolver },
            )
            &&& i == -1 && x == "REJECT"@ ==> under(u, x) == Some(NodeView::Reject)
            &&& i == -1 && x == "REJECT-DROP"@ ==> under(u, x) == Some(NodeView::RejectDrop)
        }),
{
    let proxies = proxy_registry::proxies_in(raw);
    let groups = proxy_registry::groups_in(raw);
    let b = proxy_registry::builtins(raw.routing_mark, resolver);
    law_built_ins_do_what_they_say(raw.routing_mark, resolver);
    law_proxies_stand_under_their_names(b, proxies, failed, proxies.len(), i, x);
    let leaves = proxy_registry::with_leaves(b, proxies, failed, proxies.len());
    let left = Seq::new(groups.len(), |k: int| k);
    lemma_groups_keep(leaves, groups, left, providers, store, x);
    let g = proxy_registry::with_groups(leaves, groups, left, providers, store);
    law_one_group_holds_everything(g, store, x);
}

/// A group that can be built stands under its name, as its section says: its members are
/// what their names stand for at that time, and it takes sources exactly where its kind
/// does. What stands under the other names stays.
pub proof fn law_groups_stand_under_their_names(
    r: RegView,
    groups: Seq<RawProxyGroup>,
    i: int,
    strict: bool,
    providers: Seq<Seq<char>>,
    store: bool,
    x: Seq<char>,
)
    requires
        proxy_registry::reg_ok(r),
        0 <= i < groups.len(),
    ensures
        ({
            let g = groups[i];
            let t = proxy_registry::try_group(r, groups, i, strict, providers, store);
            let m = group::members_of(g, proxy_registry::keys(r.names));
            &&& t is Some <==> group::group_error(
                g,
                proxy_registry::keys(r.names),
                strict,
                providers,
            ) is None
            &&& t matches Some(r2) ==> {
                &&& under(r2, g.name@) matches Some(
                    NodeView::Group { section, kind, members, providers: from },
                ) && section == Some(i) && kind == group::group_kind(g, store) && members.len()
                    == m.len() && (forall|k: int|
                    0 <= k < m.len() ==> Some(#[trigger] members[k]) == proxy_registry::lookup(
                        r.names,
                        m[k],
                    )) && ((kind is LoadBalance || kind is Relay) ==> from.len() == 0) && (!(
                kind is LoadBalance || kind is Relay) ==> from == group::sources_of(g, providers))
                &&& x != g.name@ ==> under(r2, x) == under(r, x)
            }
        }),
{
    let g = groups[i];
    let node = proxy_registry::group_node(r, g, i, providers, store);
    law_names_are_bound_one_by_one(r, g.name@, node, x);
    let m = group::members_of(g, proxy_registry::keys(r.names));
    proxy_registry::lemma_members_known(g, proxy_registry::keys(r.names));
    assert forall|k: int| 0 <= k < m.len() implies Some(
        #[trigger] proxy_registry::ids_of(r.names, m)[k],
    ) == proxy_registry::lookup(r.names, m[k]) by {
        proxy_registry::lemma_lookup(r.names, m[k]);
    }
}

/// A group that lists a member that never appears is built in the end without it, where
/// nothing else is wrong with it.
pub proof fn law_unknown_members_are_left_out_in_the_end(
    r: RegView,
    groups: Seq<RawProxyGroup>,
    i: int,
    providers: Seq<Seq<char>>,
    store: bool,
)
    requires
        proxy_registry::reg_ok(r),
        0 <= i < groups.len(),
    ensures
        ({
            let known = proxy_registry::keys(r.names);
            let last = proxy_registry::with_groups(r, groups, seq![i], providers, store);
            let error = group::group_error(groups[i], known, false, providers);
            &&& error is None ==> (under(last, groups[i].name@) matches Some(
                NodeView::Group { section, .. },
            ) && section == Some(i))
            &&& error is Some && group::group_error(groups[i], known, true, providers) is Some
                ==> last == r
        }),
{
    let left = seq![i];
    assert(left.drop_last() =~= Seq::<int>::empty());
    assert(left.last() == i);
    assert(proxy_registry::group_pass(r, groups, Seq::empty(), true, providers, store) == (
        r,
        Seq::<int>::empty(),
    ));
    assert(proxy_registry::group_pass(r, groups, Seq::empty(), false, providers, store) == (
        r,
        Seq::<int>::empty(),
    ));
    law_groups_stand_under_their_names(r, groups, i, true, providers, store, Seq::empty());
    law_groups_stand_under_their_names(r, groups, i, false, providers, store, Seq::empty());
    let (r2, still) = proxy_registry::group_pass(r, groups, left, true, providers, store);
    if group::group_error(groups[i], proxy_registry::keys(r.names), true, providers) is None {
        assert(still =~= Seq::empty());
        assert(proxy_registry::with_groups(r2, groups, still, providers, store) == r2);
    } else {
        assert(still =~= left);
        assert(r2 == r);
    }
}

/// Groups are tried one after another, each with what the ones before it left.
pub proof fn law_groups_are_tried_in_order(
    r: RegView,
    groups: Seq<RawProxyGroup>,
    left: Seq<int>,
    i: int,
    strict: bool,
    providers: Seq<Seq<char>>,
    store: bool,
)
    ensures
        ({
            let (a, still) = proxy_registry::group_pass(
                r,
                groups,
                left,
                strict,
                providers,
                store,
            );
            let (b, then) = proxy_registry::group_pass(
                r,
                groups,
                left.push(i),
                strict,
                providers,
                store,
            );
            let t = proxy_registry::try_group(a, groups, i, strict, providers, store);
            &&& t matches Some(r2) ==> b == r2 && then == still
            &&& t is None ==> b == a && then == still.push(i)
        }),
        proxy_registry::group_pass(r, groups, Seq::empty(), strict, providers, store) == (
            r,
            Seq::<int>::empty(),
        ),
{
    assert(left.push(i).drop_last() =~= left);
}

} // verus!
