//! What a group is, and who is in it.

use crate::config::group;
use crate::config::group::{GroupKind, GroupPlan, LbStrategy};
use crate::config::raw::RawProxyGroup;
use crate::text;
use vstd::prelude::*;
use vstd::string::*;

verus! {

/// Whether a group was built from a section.
pub open spec fn built_from(
    p: GroupPlan,
    g: RawProxyGroup,
    existing: Seq<Seq<char>>,
    strict: bool,
    providers: Seq<Seq<char>>,
    store: bool,
) -> bool {
    &&& group::group_error(g, existing, strict, providers) is None
    &&& group::group_matches(p, g, existing, providers, store)
}

proof fn lemma_type_names()
    ensures
        "select"@ != "url-test"@ && "select"@ != "fallback"@ && "select"@ != "load-balance"@
            && "select"@ != "relay"@,
        "url-test"@ != "fallback"@ && "url-test"@ != "load-balance"@ && "url-test"@ != "relay"@,
        "fallback"@ != "load-balance"@ && "fallback"@ != "relay"@ && "load-balance"@ != "relay"@,
{
    reveal_strlit("select");
    reveal_strlit("url-test");
    reveal_strlit("fallback");
    reveal_strlit("load-balance");
    reveal_strlit("relay");
    assert("select"@.len() == 6 && "url-test"@.len() == 8 && "fallback"@.len() == 8);
    assert("load-balance"@.len() == 12 && "relay"@.len() == 5);
    assert("url-test"@[0] == 'u' && "fallback"@[0] == 'f');
}

/// The type of a group names how it chooses: by hand, by speed with the tolerance that is
/// set or else 150, by the order of its members, by spreading, or through each member in
/// turn. No other type is built.
pub proof fn law_types_name_kinds(
    p: GroupPlan,
    g: RawProxyGroup,
    existing: Seq<Seq<char>>,
    strict: bool,
    providers: Seq<Seq<char>>,
    store: bool,
)
    requires
        built_from(p, g, existing, strict, providers, store),
    ensures
        p.name@ == g.name@,
        g.group_type@ == "select"@ <==> p.kind is Select,
        g.group_type@ == "url-test"@ <==> p.kind is UrlTest,
        g.group_type@ == "fallback"@ <==> p.kind is Fallback,
        g.group_type@ == "load-balance"@ <==> p.kind is LoadBalance,
        g.group_type@ == "relay"@ <==> p.kind is Relay,
        p.kind matches GroupKind::Select { persistent } ==> persistent == store,
        p.kind matches GroupKind::UrlTest { tolerance } ==> (g.tolerance matches Some(n)
            ==> tolerance == n) && (g.tolerance is None ==> tolerance == 150),
        p.kind matches GroupKind::LoadBalance(l) ==> (l is ConsistentHashing <==> (
        g.strategy matches Some(t) && t@ == "consistent-hashing"@)) && (l is RoundRobin <==> (
        g.strategy matches Some(t) ==> t@ == "round-robin"@)),
{
    lemma_type_names();
    reveal_strlit("round-robin");
    reveal_strlit("consistent-hashing");
    assert("round-robin"@.len() == 11 && "consistent-hashing"@.len() == 18);
}

/// Groups of different types are of different kinds, whatever else is set.
pub proof fn law_different_types_are_different_kinds(
    p: GroupPlan,
    g: RawProxyGroup,
    q: GroupPlan,
    h: RawProxyGroup,
    existing: Seq<Seq<char>>,
    strict: bool,
    providers: Seq<Seq<char>>,
    store: bool,
)
    requires
        built_from(p, g, existing, strict, providers, store),
        built_from(q, h, existing, strict, providers, store),
        g.group_type@ != h.group_type@,
    ensures
        p.kind != q.kind,
{
    law_types_name_kinds(p, g, existing, strict, providers, store);
    law_types_name_kinds(q, h, existing, strict, providers, store);
}

/// Among names, those that exist are kept, each as often as it is listed and in the
/// order of the list; the others are left out.
pub proof fn law_known_names_are_kept_in_order(
    a: Seq<Seq<char>>,
    b: Seq<Seq<char>>,
    existing: Seq<Seq<char>>,
    x: Seq<char>,
)
    ensures
        group::known(a + b, existing) == group::known(a, existing) + group::known(b, existing),
        existing.contains(x) ==> group::known(seq![x], existing) == seq![x],
        !existing.contains(x) ==> group::known(seq![x], existing).len() == 0,
        group::known(a, existing).contains(x) <==> a.contains(x) && existing.contains(x),
        (forall|i: int| 0 <= i < a.len() ==> existing.contains(#[trigger] a[i])) ==> group::known(
            a,
            existing,
        ) == a,
{
    lemma_known_of_two(a, b, existing);
    assert(seq![x].drop_last() =~= Seq::<Seq<char>>::empty());
    assert(group::known(Seq::empty(), existing) =~= Seq::<Seq<char>>::empty());
    assert(Seq::<Seq<char>>::empty().push(x) =~= seq![x]);
    lemma_known_has(a, existing, x);
    if forall|i: int| 0 <= i < a.len() ==> existing.contains(#[trigger] a[i]) {
        lemma_all_known(a, existing);
    }
}

proof fn lemma_known_of_two(a: Seq<Seq<char>>, b: Seq<Seq<char>>, existing: Seq<Seq<char>>)
    ensures
        group::known(a + b, existing) == group::known(a, existing) + group::known(b, existing),
    decreases b.len(),
{
    let x = group::known(a, existing);
    if b.len() == 0 {
        assert(a + b =~= a);
        assert(x + group::known(b, existing) =~= x);
    } else {
        let r = b.drop_last();
        lemma_known_of_two(a, r, existing);
        assert((a + b).drop_last() =~= a + r);
        assert((a + b).last() == b.last());
        let y = group::known(r, existing);
        assert(x + y.push(b.last()) =~= (x + y).push(b.last()));
    }
}

proof fn lemma_known_has(a: Seq<Seq<char>>, existing: Seq<Seq<char>>, x: Seq<char>)
    ensures
        group::known(a, existing).contains(x) <==> a.contains(x) && existing.contains(x),
    decreases a.len(),
{
    if a.len() > 0 {
        let r = a.drop_last();
        lemma_known_has(r, existing, x);
        let k = group::known(r, existing);
        let all = group::known(a, existing);
        if a.contains(x) && a.last() != x {
            let i = choose|i: int| 0 <= i < a.len() && a[i] == x;
            assert(r[i] == x);
        }
        if r.contains(x) {
            let i = choose|i: int| 0 <= i < r.len() && r[i] == x;
            assert(a[i] == x);
        }
        if k.contains(x) {
            let i = choose|i: int| 0 <= i < k.len() && k[i] == x;
            assert(all[i] == x);
        }
        if a.last() == x {
            assert(a[a.len() - 1] == x);
            if existing.contains(x) {
                assert(all[all.len() - 1] == x);
            }
        }
        if all.contains(x) && !k.contains(x) {
            let i = choose|i: int| 0 <= i < all.len() && all[i] == x;
            if i < k.len() {
                assert(k[i] == x);
            }
        }
    }
}

proof fn lemma_all_known(a: Seq<Seq<char>>, existing: Seq<Seq<char>>)
    requires
        forall|i: int| 0 <= i < a.len() ==> existing.contains(#[trigger] a[i]),
    ensures
        group::known(a, existing) == a,
    decreases a.len(),
{
    if a.len() > 0 {
        let r = a.drop_last();
        assert forall|i: int| 0 <= i < r.len() implies existing.contains(#[trigger] r[i]) by {
            assert(r[i] == a[i]);
        }
        lemma_all_known(r, existing);
        assert(existing.contains(a[a.len() - 1]));
        assert(r.push(a.last()) =~= a);
    } else {
        assert(group::known(a, existing) =~= a);
    }
}

proof fn lemma_first_unknown(names: Seq<Seq<char>>, existing: Seq<Seq<char>>, from: int)
    requires
        0 <= from,
    ensures
        (match group::first_unknown(names, existing, from) {
            Some(k) => from <= k < names.len() && !existing.contains(names[k]) && forall|j: int|
                from <= j < k ==> existing.contains(#[trigger] names[j]),
            None => forall|j: int|
                from <= j < names.len() ==> existing.contains(#[trigger] names[j]),
        }),
    decreases names.len() - from,
{
    if from < names.len() && existing.contains(names[from]) {
        lemma_first_unknown(names, existing, from + 1);
    }
}

/// A name that does not exist is told where there is one, and it is the first.
pub proof fn law_the_first_unknown_name_is_told(names: Seq<Seq<char>>, existing: Seq<Seq<char>>)
    ensures
        (match group::first_unknown(names, existing, 0) {
            Some(k) => 0 <= k < names.len() && !existing.contains(names[k]) && forall|j: int|
                0 <= j < k ==> existing.contains(#[trigger] names[j]),
            None => forall|j: int| 0 <= j < names.len() ==> existing.contains(#[trigger] names[j]),
        }),
{
    lemma_first_unknown(names, existing, 0);
}

/// The members of a group are the proxies that it lists, in the order of the list,
/// behind all that exist where it asks for all of them. Where every name has to exist,
/// none of the list is left out. The sources of further members are those that it lists,
/// or all where it asks for all; one that spreads or chains takes none.
pub proof fn law_members_are_those_listed(
    p: GroupPlan,
    g: RawProxyGroup,
    existing: Seq<Seq<char>>,
    strict: bool,
    providers: Seq<Seq<char>>,
    store: bool,
    x: Seq<char>,
)
    requires
        built_from(p, g, existing, strict, providers, store),
    ensures
        g.include_all_proxies != Some(true) && strict ==> text::views(p.members@)
            == group::opt_list(g.proxies),
        g.include_all_proxies == Some(true) && strict ==> text::views(p.members@) == existing
            + group::opt_list(g.proxies),
        text::views(p.members@).contains(x) <==> existing.contains(x) && (g.include_all_proxies
            == Some(true) || group::opt_list(g.proxies).contains(x)),
        p.kind is LoadBalance || p.kind is Relay ==> p.providers@.len() == 0,
        !(p.kind is LoadBalance || p.kind is Relay) && g.include_all == Some(true) ==> text::views(
            p.providers@,
        ) == providers,
        !(p.kind is LoadBalance || p.kind is Relay) && g.include_all != Some(true) ==> (text::views(
            p.providers@,
        ).contains(x) <==> group::opt_list(g.use_providers).contains(x) && providers.contains(x)),
{
    let names = group::opt_list(g.proxies);
    let listed = group::known(names, existing);
    lemma_first_unknown(names, existing, 0);
    law_known_names_are_kept_in_order(names, Seq::empty(), existing, x);
    law_known_names_are_kept_in_order(
        group::opt_list(g.use_providers),
        Seq::empty(),
        providers,
        x,
    );
    let members = text::views(p.members@);
    assert(Seq::<Seq<char>>::empty() + names =~= names);
    assert(Seq::<Seq<char>>::empty() + listed =~= listed);
    if g.include_all_proxies == Some(true) {
        let all = existing + listed;
        if existing.contains(x) {
            let i = choose|i: int| 0 <= i < existing.len() && existing[i] == x;
            assert(all[i] == x);
        }
        if all.contains(x) {
            let i = choose|i: int| 0 <= i < all.len() && all[i] == x;
            if i >= existing.len() {
                assert(listed[i - existing.len()] == x);
            }
        }
    }
    if p.kind is LoadBalance || p.kind is Relay {
        assert(text::views(p.providers@).len() == p.providers@.len());
    }
}

/// A group is refused exactly where a name that has to exist does not, where it is left
/// with nobody to choose from, where its type is unknown, where it spreads in a way that
/// is unknown, or where it chains fewer than two.
pub proof fn law_when_a_group_is_refused(
    g: RawProxyGroup,
    existing: Seq<Seq<char>>,
    strict: bool,
    providers: Seq<Seq<char>>,
)
    ensures
        ({
            let t = g.group_type@;
            let names = group::opt_list(g.proxies);
            let members = group::members_of(g, existing);
            let sources = group::sources_of(g, providers);
            group::group_error(g, existing, strict, providers) is Some <==> {
                ||| strict && exists|i: int|
                    0 <= i < names.len() && !existing.contains(#[trigger] names[i])
                ||| members.len() == 0 && sources.len() == 0
                ||| t != "select"@ && t != "url-test"@ && t != "fallback"@ && t != "load-balance"@
                    && t != "relay"@
                ||| t == "relay"@ && members.len() < 2
                ||| t == "load-balance"@ && (g.strategy matches Some(s) && s@ != "round-robin"@
                    && s@ != "consistent-hashing"@)
            }
        }),
{
    lemma_type_names();
    lemma_first_unknown(group::opt_list(g.proxies), existing, 0);
}

/// A strategy is one of two names; without a name connections are spread in turn.
pub proof fn law_strategies_have_their_names(s: Seq<char>)
    ensures
        group::strategy_of(None) == Some(LbStrategy::RoundRobin),
        group::strategy_of(Some(s)) == Some(LbStrategy::RoundRobin) <==> s == "round-robin"@,
        group::strategy_of(Some(s)) == Some(LbStrategy::ConsistentHashing) <==> s
            == "consistent-hashing"@,
        s != "round-robin"@ && s != "consistent-hashing"@ ==> group::strategy_of(Some(s)) is None,
{
    reveal_strlit("round-robin");
    reveal_strlit("consistent-hashing");
    assert("round-robin"@.len() == 11 && "consistent-hashing"@.len() == 18);
}

} // verus!
