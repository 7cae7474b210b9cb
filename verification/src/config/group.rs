//! Groups: proxies behind one name.

use crate::config::raw::RawProxyGroup;
use crate::number;
use crate::text;
use vstd::prelude::*;
use vstd::string::*;

verus! {

/// How a load-balancing group spreads connections.
#[derive(Clone, Copy, Debug, PartialEq, Eq, Structural)]
pub enum LbStrategy {
    RoundRobin,
    ConsistentHashing,
}

/// How a group chooses among its members.
#[derive(Clone, Copy, Debug, PartialEq, Eq, Structural)]
pub enum GroupKind {
    /// The user chooses; the choice may outlive the process.
    Select { persistent: bool },
    /// The fastest, unless another is faster by no more than the tolerance.
    UrlTest { tolerance: u16 },
    /// The first that works.
    Fallback,
    LoadBalance(LbStrategy),
    /// Each member is reached through the one before it.
    Relay,
}

/// A group with its members and sources of further members.
#[derive(Clone, Debug)]
pub struct GroupPlan {
    pub name: String,
    pub kind: GroupKind,
    pub members: Vec<String>,
    pub providers: Vec<String>,
}

/// The strategy that a text names.
pub open spec fn strategy_of(s: Option<Seq<char>>) -> Option<LbStrategy> {
    match s {
        None => Some(LbStrategy::RoundRobin),
        Some(t) => if t == "round-robin"@ {
            Some(LbStrategy::RoundRobin)
        } else if t == "consistent-hashing"@ {
            Some(LbStrategy::ConsistentHashing)
        } else {
            None
        },
    }
}

/// The message about an unknown strategy.
pub open spec fn strategy_error(s: Seq<char>) -> Seq<char> {
    "load-balance: unknown strategy '"@ + s
        + "'; valid values: 'round-robin' (default), 'consistent-hashing'. (upstream: falls back silently to round-robin; we reject — Class A ADR-0002)"@
}

/// Reads the strategy of a load-balancing group. An unknown one is an error.
pub fn parse_lb_strategy(strategy: Option<&str>) -> (r: Result<LbStrategy, String>)
    ensures
        (match strategy {
            None => r == Ok::<LbStrategy, String>(LbStrategy::RoundRobin),
            Some(s) => match r {
                Ok(l) => strategy_of(Some(s@)) == Some(l),
                Err(e) => strategy_of(Some(s@)) is None && e@ == strategy_error(s@),
            },
        }),
{
    let s = match strategy {
        Some(s) => s,
        None => {
            return Ok(LbStrategy::RoundRobin);
        },
    };
    if text::same(s, "round-robin") {
        Ok(LbStrategy::RoundRobin)
    } else if text::same(s, "consistent-hashing") {
        Ok(LbStrategy::ConsistentHashing)
    } else {
        Err(
            "load-balance: unknown strategy '".to_owned().concat(s).concat(
                "'; valid values: 'round-robin' (default), 'consistent-hashing'. (upstream: falls back silently to round-robin; we reject — Class A ADR-0002)",
            ),
        )
    }
}

/// The names of a list that may be absent.
pub open spec fn opt_list(o: Option<Vec<String>>) -> Seq<Seq<char>> {
    match o {
        Some(v) => text::views(v@),
        None => Seq::empty(),
    }
}

/// The names of a list that are known, in order.
pub open spec fn known(names: Seq<Seq<char>>, existing: Seq<Seq<char>>) -> Seq<Seq<char>>
    decreases names.len(),
{
    if names.len() == 0 {
        Seq::empty()
    } else {
        let k = known(names.drop_last(), existing);
        if existing.contains(names.last()) {
            k.push(names.last())
        } else {
            k
        }
    }
}

/// The position of the first name that is not known.
pub open spec fn first_unknown(
    names: Seq<Seq<char>>,
    existing: Seq<Seq<char>>,
    from: int,
) -> Option<int>
    decreases names.len() - from,
{
    if from < 0 || from >= names.len() {
        None
    } else if !existing.contains(names[from]) {
        Some(from)
    } else {
        first_unknown(names, existing, from + 1)
    }
}

/// The members of a group: every proxy if all are asked for, and then those that
/// are listed and known.
pub open spec fn members_of(g: RawProxyGroup, existing: Seq<Seq<char>>) -> Seq<Seq<char>> {
    let all = if g.include_all_proxies == Some(true) {
        existing
    } else {
        Seq::empty()
    };
    all + known(opt_list(g.proxies), existing)
}

/// The sources of a group: every one if all are asked for, else those that are
/// listed and known.
pub open spec fn sources_of(g: RawProxyGroup, providers: Seq<Seq<char>>) -> Seq<Seq<char>> {
    if g.include_all == Some(true) {
        providers
    } else {
        known(opt_list(g.use_providers), providers)
    }
}

/// The kind of a group.
pub open spec fn group_kind(g: RawProxyGroup, store: bool) -> GroupKind {
    let t = g.group_type@;
    if t == "select"@ {
        GroupKind::Select { persistent: store }
    } else if t == "url-test"@ {
        GroupKind::UrlTest {
            tolerance: match g.tolerance {
                Some(n) => n,
                None => 150,
            },
        }
    } else if t == "fallback"@ {
        GroupKind::Fallback
    } else if t == "load-balance"@ {
        GroupKind::LoadBalance(strategy_of(text::opt_view(g.strategy))->0)
    } else {
        GroupKind::Relay
    }
}

/// Why a chain of `n` members cannot be used.
pub open spec fn relay_error(name: Seq<char>, n: nat) -> Option<Seq<char>> {
    if n == 0 {
        Some(
            "relay group '"@ + name
                + "': proxies list is empty; relay requires at least 2 proxies. (upstream: panics; we reject — Class A ADR-0002)"@,
        )
    } else if n < 2 {
        Some(
            "relay group '"@ + name + "': requires at least 2 proxies, got "@ + number::decimal(n)
                + "; use `type: selector` or `type: direct` for a single proxy. (upstream: silently acts as passthrough; we reject — Class A ADR-0002)"@,
        )
    } else {
        None
    }
}

/// Why a group cannot be built from the proxies and sources that exist.
pub open spec fn group_error(
    g: RawProxyGroup,
    existing: Seq<Seq<char>>,
    strict: bool,
    providers: Seq<Seq<char>>,
) -> Option<Seq<char>> {
    let names = opt_list(g.proxies);
    let unknown = first_unknown(names, existing, 0);
    let members = members_of(g, existing);
    let t = g.group_type@;
    if strict && unknown is Some {
        Some(
            "group '"@ + g.name@ + "' references unknown proxy '"@ + names[unknown->0] + "'"@,
        )
    } else if members.len() == 0 && sources_of(g, providers).len() == 0 {
        Some("group '"@ + g.name@ + "' has no valid proxies or providers"@)
    } else if t == "select"@ || t == "url-test"@ || t == "fallback"@ {
        None
    } else if t == "load-balance"@ {
        if strategy_of(text::opt_view(g.strategy)) is None {
            Some(strategy_error(g.strategy->0@))
        } else {
            None
        }
    } else if t == "relay"@ {
        relay_error(g.name@, members.len())
    } else {
        Some("unsupported group type: "@ + t)
    }
}

/// Whether a group is what its section says.
pub open spec fn group_matches(
    p: GroupPlan,
    g: RawProxyGroup,
    existing: Seq<Seq<char>>,
    providers: Seq<Seq<char>>,
    store: bool,
) -> bool {
    &&& p.name@ == g.name@
    &&& p.kind == group_kind(g, store)
    &&& text::views(p.members@) == members_of(g, existing)
    &&& text::views(p.providers@) == (if p.kind is LoadBalance || p.kind is Relay {
        Seq::empty()
    } else {
        sources_of(g, providers)
    })
}

/// Finds the first name that is not known.
pub fn find_unknown(names: &Vec<String>, existing: &Vec<String>) -> (r: Option<usize>)
    ensures
        (match r {
            Some(i) => first_unknown(text::views(names@), text::views(existing@), 0) == Some(
                i as int,
            ) && i < names@.len(),
            None => first_unknown(text::views(names@), text::views(existing@), 0) is None,
        }),
{
    let ghost n = text::views(names@);
    let ghost e = text::views(existing@);
    let mut i: usize = 0;
    while i < names.len()
        invariant
            i <= names@.len(),
            n == text::views(names@),
            e == text::views(existing@),
            first_unknown(n, e, 0) == first_unknown(n, e, i as int),
        decreases names@.len() - i,
    {
        assert(n[i as int] == names@[i as int]@);
        if !text::has_string(existing, names[i].as_str()) {
            return Some(i);
        }
        i += 1;
    }
    None
}

fn push_known(out: &mut Vec<String>, names: &Vec<String>, existing: &Vec<String>)
    ensures
        text::views(final(out)@) == text::views(old(out)@) + known(
            text::views(names@),
            text::views(existing@),
        ),
{
    let ghost n = text::views(names@);
    let ghost e = text::views(existing@);
    let ghost before = text::views(out@);
    let mut i: usize = 0;
    assert(before + known(n.take(0), e) =~= before);
    while i < names.len()
        invariant
            i <= names@.len(),
            n == text::views(names@),
            e == text::views(existing@),
            text::views(out@) == before + known(n.take(i as int), e),
        decreases names@.len() - i,
    {
        let ghost now = n.take(i + 1);
        assert(now.drop_last() == n.take(i as int));
        assert(now.last() == names@[i as int]@);
        if text::has_string(existing, names[i].as_str()) {
            text::push_string(out, names[i].clone());
            assert(text::views(out@) =~= before + known(now, e));
        }
        i += 1;
    }
    assert(n.take(i as int) == n);
}

fn relay_message(name: &str, n: usize) -> (r: Option<String>)
    ensures
        text::opt_view(r) == relay_error(name@, n as nat),
{
    let start = "relay group '".to_owned().concat(name);
    if n == 0 {
        Some(
            start.concat(
                "': proxies list is empty; relay requires at least 2 proxies. (upstream: panics; we reject — Class A ADR-0002)",
            ),
        )
    } else if n < 2 {
        Some(
            start.concat("': requires at least 2 proxies, got ").concat(
                number::to_decimal(n as u64).as_str(),
            ).concat(
                "; use `type: selector` or `type: direct` for a single proxy. (upstream: silently acts as passthrough; we reject — Class A ADR-0002)",
            ),
        )
    } else {
        None
    }
}

/// Builds a group from the proxies and sources that exist. A strict build
/// fails where a listed member does not exist; a lenient one leaves it out.
pub fn parse_proxy_group_inner(
    g: &RawProxyGroup,
    existing: &Vec<String>,
    strict: bool,
    providers: &Vec<String>,
    store: bool,
) -> (r: Result<GroupPlan, String>)
    ensures
        (match r {
            Ok(p) => {
                &&& group_error(*g, text::views(existing@), strict, text::views(providers@)) is None
                &&& group_matches(
                    p,
                    *g,
                    text::views(existing@),
                    text::views(providers@),
                    store,
                )
            },
            Err(e) => group_error(*g, text::views(existing@), strict, text::views(providers@))
                == Some(e@),
        }),
{
    let ghost e = text::views(existing@);
    let ghost s = text::views(providers@);
    let mut members = match g.include_all_proxies {
        Some(true) => text::copy_strings(existing),
        _ => text::no_strings(),
    };
    let ghost all = text::views(members@);
    if let Some(names) = &g.proxies {
        if strict {
            if let Some(i) = find_unknown(names, existing) {
                assert(opt_list(g.proxies)[i as int] == names@[i as int]@);
                return Err(
                    "group '".to_owned().concat(g.name.as_str()).concat(
                        "' references unknown proxy '",
                    ).concat(names[i].as_str()).concat("'"),
                );
            }
        }
        push_known(&mut members, names, existing);
    }
    assert(text::views(members@) =~= members_of(*g, e));
    let include_all = match g.include_all {
        Some(true) => true,
        _ => false,
    };
    let mut sources = text::no_strings();
    if include_all {
        sources = text::copy_strings(providers);
    } else if let Some(names) = &g.use_providers {
        push_known(&mut sources, names, providers);
    }
    assert(text::views(sources@) =~= sources_of(*g, s));
    assert(text::views(members@).len() == members@.len());
    assert(text::views(sources@).len() == sources@.len());
    if members.len() == 0 && sources.len() == 0 {
        return Err(
            "group '".to_owned().concat(g.name.as_str()).concat(
                "' has no valid proxies or providers",
            ),
        );
    }
    let t = g.group_type.as_str();
    let name = g.name.clone();
    if text::same(t, "select") {
        return Ok(
            GroupPlan {
                name,
                kind: GroupKind::Select { persistent: store },
                members,
                providers: sources,
            },
        );
    }
    if text::same(t, "url-test") {
        let tolerance: u16 = match g.tolerance {
            Some(n) => n,
            None => 150,
        };
        return Ok(
            GroupPlan { name, kind: GroupKind::UrlTest { tolerance }, members, providers: sources },
        );
    }
    if text::same(t, "fallback") {
        return Ok(GroupPlan { name, kind: GroupKind::Fallback, members, providers: sources });
    }
    if text::same(t, "load-balance") {
        let strategy = match &g.strategy {
            Some(s) => Some(s.as_str()),
            None => None,
        };
        return match parse_lb_strategy(strategy) {
            Ok(l) => Ok(
                GroupPlan {
                    name,
                    kind: GroupKind::LoadBalance(l),
                    members,
                    providers: text::no_strings(),
                },
            ),
            Err(e) => Err(e),
        };
    }
    if text::same(t, "relay") {
        return match relay_message(g.name.as_str(), members.len()) {
            Some(e) => Err(e),
            None => Ok(
                GroupPlan {
                    name,
                    kind: GroupKind::Relay,
                    members,
                    providers: text::no_strings(),
                },
            ),
        };
    }
    Err("unsupported group type: ".to_owned().concat(t))
}

/// Builds a group whose members all have to exist.
pub fn parse_proxy_group(
    g: &RawProxyGroup,
    existing: &Vec<String>,
    providers: &Vec<String>,
) -> (r: Result<GroupPlan, String>)
    ensures
        (match r {
            Ok(p) => {
                &&& group_error(*g, text::views(existing@), true, text::views(providers@)) is None
                &&& group_matches(
                    p,
                    *g,
                    text::views(existing@),
                    text::views(providers@),
                    false,
                )
            },
            Err(e) => group_error(*g, text::views(existing@), true, text::views(providers@))
                == Some(e@),
        }),
{
    parse_proxy_group_inner(g, existing, true, providers, false)
}

/// Builds a group whose members all have to exist; a user's choice is kept if
/// there is a store.
pub fn parse_proxy_group_with_store(
    g: &RawProxyGroup,
    existing: &Vec<String>,
    providers: &Vec<String>,
    store: bool,
) -> (r: Result<GroupPlan, String>)
    ensures
        (match r {
            Ok(p) => {
                &&& group_error(*g, text::views(existing@), true, text::views(providers@)) is None
                &&& group_matches(
                    p,
                    *g,
                    text::views(existing@),
                    text::views(providers@),
                    store,
                )
            },
            Err(e) => group_error(*g, text::views(existing@), true, text::views(providers@))
                == Some(e@),
        }),
{
    parse_proxy_group_inner(g, existing, true, providers, store)
}

/// Builds a group of those members that exist.
pub fn parse_proxy_group_lenient(
    g: &RawProxyGroup,
    existing: &Vec<String>,
    providers: &Vec<String>,
) -> (r: Result<GroupPlan, String>)
    ensures
        (match r {
            Ok(p) => {
                &&& group_error(*g, text::views(existing@), false, text::views(providers@)) is None
                &&& group_matches(
                    p,
                    *g,
                    text::views(existing@),
                    text::views(providers@),
                    false,
                )
            },
            Err(e) => group_error(*g, text::views(existing@), false, text::views(providers@))
                == Some(e@),
        }),
{
    parse_proxy_group_inner(g, existing, false, providers, false)
}

/// Builds a group of those members that exist; a user's choice is kept if there
/// is a store.
pub fn parse_proxy_group_lenient_with_store(
    g: &RawProxyGroup,
    existing: &Vec<String>,
    providers: &Vec<String>,
    store: bool,
) -> (r: Result<GroupPlan, String>)
    ensures
        (match r {
            Ok(p) => {
                &&& group_error(*g, text::views(existing@), false, text::views(providers@)) is None
                &&& group_matches(
                    p,
                    *g,
                    text::views(existing@),
                    text::views(providers@),
                    store,
                )
            },
            Err(e) => group_error(*g, text::views(existing@), false, text::views(providers@))
                == Some(e@),
        }),
{
    parse_proxy_group_inner(g, existing, false, providers, store)
}

} // verus!
