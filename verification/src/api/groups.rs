//! Changes to groups.

use crate::api::reply;
use crate::api::reply::Reply;
use crate::api::rules;
use crate::config::raw::{RawConfig, RawProxyGroup};
use crate::text;
use vstd::prelude::*;
use vstd::string::*;

verus! {

/// The groups of a configuration, which may have none.
pub open spec fn groups_in(o: Option<Vec<RawProxyGroup>>) -> Seq<RawProxyGroup> {
    match o {
        Some(v) => v@,
        None => Seq::empty(),
    }
}

/// Where a group stands.
pub open spec fn group_at(g: Seq<RawProxyGroup>, name: Seq<char>, from: int) -> Option<int>
    decreases g.len() - from,
{
    if from < 0 || from >= g.len() {
        None
    } else if g[from].name@ == name {
        Some(from)
    } else {
        group_at(g, name, from + 1)
    }
}

/// What is asked for of a group.
#[derive(Clone, Debug)]
pub struct GroupRequest {
    pub name: String,
    pub group_type: String,
    pub proxies: Vec<String>,
    pub url: Option<String>,
    pub interval: Option<u64>,
    pub tolerance: Option<u16>,
}

/// Whether a group is what was asked for, apart from its name.
pub open spec fn set_as(g: RawProxyGroup, r: GroupRequest) -> bool {
    &&& g.group_type == r.group_type
    &&& g.proxies == Some(r.proxies)
    &&& g.url == r.url
    &&& g.interval == r.interval
    &&& g.tolerance == r.tolerance
}

/// Whether what a request says nothing of is the same in two groups.
pub open spec fn same_rest(a: RawProxyGroup, b: RawProxyGroup) -> bool {
    &&& a.strategy == b.strategy
    &&& a.lazy == b.lazy
    &&& a.use_providers == b.use_providers
    &&& a.filter == b.filter
    &&& a.exclude_filter == b.exclude_filter
    &&& a.exclude_type == b.exclude_type
    &&& a.include_all == b.include_all
    &&& a.include_all_proxies == b.include_all_proxies
}

/// Whether nothing is set of what a request says nothing of.
pub open spec fn rest_unset(a: RawProxyGroup) -> bool {
    &&& a.strategy is None
    &&& a.lazy is None
    &&& a.use_providers is None
    &&& a.filter is None
    &&& a.exclude_filter is None
    &&& a.exclude_type is None
    &&& a.include_all is None
    &&& a.include_all_proxies is None
}

fn find_group(g: &Vec<RawProxyGroup>, name: &str) -> (r: Option<usize>)
    ensures
        (match r {
            Some(i) => i < g@.len() && g@[i as int].name@ == name@ && group_at(g@, name@, 0)
                == Some(i as int),
            None => group_at(g@, name@, 0) is None,
        }),
{
    let mut i: usize = 0;
    while i < g.len()
        invariant
            i <= g@.len(),
            group_at(g@, name@, 0) == group_at(g@, name@, i as int),
        decreases g@.len() - i,
    {
        if text::same(g[i].name.as_str(), name) {
            return Some(i);
        }
        i += 1;
    }
    None
}

/// Adds a group. Its name must be free.
pub fn create_proxy_group(groups: Option<Vec<RawProxyGroup>>, body: GroupRequest) -> (r: Result<
    Vec<RawProxyGroup>,
    Reply,
>)
    ensures
        (match r {
            Ok(v) => {
                &&& group_at(groups_in(groups), body.name@, 0) is None
                &&& v@.len() == groups_in(groups).len() + 1
                &&& v@.drop_last() == groups_in(groups)
                &&& v@.last().name == body.name
                &&& set_as(v@.last(), body)
                &&& rest_unset(v@.last())
            },
            Err(e) => group_at(groups_in(groups), body.name@, 0) is Some && e@ == reply::told(
                409,
                "group name already exists"@,
            ),
        }),
{
    let mut v = match groups {
        Some(v) => v,
        None => Vec::new(),
    };
    assert(v@ == groups_in(groups));
    if let Some(_) = find_group(&v, body.name.as_str()) {
        return Err(reply::msg_err(reply::CONFLICT, "group name already exists"));
    }
    let ghost was = v@;
    v.push(
        RawProxyGroup {
            name: body.name,
            group_type: body.group_type,
            proxies: Some(body.proxies),
            url: body.url,
            interval: body.interval,
            tolerance: body.tolerance,
            strategy: None,
            lazy: None,
            use_providers: None,
            filter: None,
            exclude_filter: None,
            exclude_type: None,
            include_all: None,
            include_all_proxies: None,
        },
    );
    assert(v@.drop_last() =~= was);
    Ok(v)
}

/// Changes a group. What the request says nothing of stays.
pub fn update_proxy_group(
    groups: Option<Vec<RawProxyGroup>>,
    name: &str,
    body: GroupRequest,
) -> (r: Result<Vec<RawProxyGroup>, Reply>)
    ensures
        (match (r, group_at(groups_in(groups), name@, 0)) {
            (Ok(v), Some(i)) => {
                &&& v@.len() == groups_in(groups).len()
                &&& v@[i].name == groups_in(groups)[i].name
                &&& set_as(v@[i], body)
                &&& same_rest(v@[i], groups_in(groups)[i])
                &&& forall|j: int|
                    0 <= j < v@.len() && j != i ==> #[trigger] v@[j] == groups_in(groups)[j]
            },
            (Err(e), None) => e@ == reply::told(404, "group not found"@),
            _ => false,
        }),
{
    let mut v = match groups {
        Some(v) => v,
        None => Vec::new(),
    };
    assert(v@ == groups_in(groups));
    match find_group(&v, name) {
        Some(i) => {
            let ghost was = v@;
            let old = v.remove(i);
            let g = RawProxyGroup {
                name: old.name,
                group_type: body.group_type,
                proxies: Some(body.proxies),
                url: body.url,
                interval: body.interval,
                tolerance: body.tolerance,
                strategy: old.strategy,
                lazy: old.lazy,
                use_providers: old.use_providers,
                filter: old.filter,
                exclude_filter: old.exclude_filter,
                exclude_type: old.exclude_type,
                include_all: old.include_all,
                include_all_proxies: old.include_all_proxies,
            };
            v.insert(i, g);
            assert(v@ =~= was.update(i as int, g));
            Ok(v)
        },
        None => Err(reply::msg_err(reply::NOT_FOUND, "group not found")),
    }
}

/// The groups of another name.
pub open spec fn without_group(g: Seq<RawProxyGroup>, name: Seq<char>) -> Seq<RawProxyGroup>
    decreases g.len(),
{
    if g.len() == 0 {
        Seq::empty()
    } else {
        let r = without_group(g.drop_last(), name);
        if g.last().name@ == name {
            r
        } else {
            r.push(g.last())
        }
    }
}

/// What is left of groups and rules.
#[derive(Debug)]
pub struct Left {
    pub groups: Vec<RawProxyGroup>,
    pub rules: Option<Vec<String>>,
}

/// Takes a group out, and the rules that send connections to it.
pub fn delete_proxy_group(
    groups: Option<Vec<RawProxyGroup>>,
    rules: Option<Vec<String>>,
    name: &str,
) -> (r: Result<Left, Reply>)
    ensures
        (match r {
            Ok(l) => {
                &&& group_at(groups_in(groups), name@, 0) is Some
                &&& l.groups@ == without_group(groups_in(groups), name@)
                &&& l.rules is Some == rules is Some
                &&& rules::rules_in(l.rules) == rules::without_target(
                    rules::rules_in(rules),
                    name@,
                )
            },
            Err(e) => group_at(groups_in(groups), name@, 0) is None && e@ == reply::told(
                404,
                if groups is Some {
                    "group not found"@
                } else {
                    "no groups"@
                },
            ),
        }),
{
    let all = match groups {
        Some(v) => v,
        None => return Err(reply::msg_err(reply::NOT_FOUND, "no groups")),
    };
    if find_group(&all, name).is_none() {
        return Err(reply::msg_err(reply::NOT_FOUND, "group not found"));
    }
    let ghost was = all@;
    let mut rest = all;
    let mut kept: Vec<RawProxyGroup> = Vec::new();
    let ghost mut i: int = 0;
    assert(was.take(0) =~= Seq::empty());
    while rest.len() > 0
        invariant
            0 <= i <= was.len(),
            rest@ == was.skip(i),
            kept@ == without_group(was.take(i), name@),
        decreases rest@.len(),
    {
        assert(was.take(i + 1).drop_last() =~= was.take(i));
        assert(was.take(i + 1).last() == was[i]);
        let g = rest.remove(0);
        assert(g == was[i]);
        assert(rest@ =~= was.skip(i + 1));
        if !text::same(g.name.as_str(), name) {
            kept.push(g);
        }
        proof {
            i = i + 1;
        }
    }
    assert(was.take(i) =~= was);
    let left = match &rules {
        Some(v) => Some(rules::drop_target(v, name)),
        None => None,
    };
    Ok(Left { groups: kept, rules: left })
}

/// A group that was taken out is gone.
pub proof fn law_deleted_groups_are_gone(g: Seq<RawProxyGroup>, name: Seq<char>, i: int)
    requires
        0 <= i < without_group(g, name).len(),
    ensures
        without_group(g, name)[i].name@ != name,
    decreases g.len(),
{
    let f = g.drop_last();
    if i < without_group(f, name).len() {
        law_deleted_groups_are_gone(f, name, i);
    }
}

/// A group that was added and taken out again leaves the others as they were.
pub proof fn law_deleting_undoes_creating(g: Seq<RawProxyGroup>, made: RawProxyGroup)
    requires
        group_at(g, made.name@, 0) is None,
    ensures
        without_group(g.push(made), made.name@) == g,
{
    assert(g.push(made).drop_last() =~= g);
    lemma_none_has_the_name(g, made.name@, 0);
    lemma_nothing_is_left_out(g, made.name@);
}

proof fn lemma_none_has_the_name(g: Seq<RawProxyGroup>, name: Seq<char>, from: int)
    requires
        0 <= from,
        group_at(g, name, from) is None,
    ensures
        forall|i: int| from <= i < g.len() ==> (#[trigger] g[i]).name@ != name,
    decreases g.len() - from,
{
    if from < g.len() {
        lemma_none_has_the_name(g, name, from + 1);
    }
}

proof fn lemma_nothing_is_left_out(g: Seq<RawProxyGroup>, name: Seq<char>)
    requires
        forall|i: int| 0 <= i < g.len() ==> (#[trigger] g[i]).name@ != name,
    ensures
        without_group(g, name) == g,
    decreases g.len(),
{
    if g.len() > 0 {
        let f = g.drop_last();
        assert forall|i: int| 0 <= i < f.len() implies (#[trigger] f[i]).name@ != name by {
            assert(g[i] == f[i]);
        }
        lemma_nothing_is_left_out(f, name);
        assert(g[g.len() - 1] == g.last());
        assert(f.push(g.last()) =~= g);
    } else {
        assert(g =~= Seq::empty());
    }
}

/// The first group, from a position on, that was not built.
pub open spec fn first_missing(
    expected: Seq<Seq<char>>,
    built: Seq<Seq<char>>,
    from: int,
) -> Option<int>
    decreases expected.len() - from,
{
    if from < 0 || from >= expected.len() {
        None
    } else if !built.contains(expected[from]) {
        Some(from)
    } else {
        first_missing(expected, built, from + 1)
    }
}

/// Checks that every group of a changed configuration was built. One that was not
/// makes the change fail.
pub fn check_groups(expected: &Vec<String>, built: &Vec<String>) -> (r: Result<(), Reply>)
    ensures
        (match (r, first_missing(text::views(expected@), text::views(built@), 0)) {
            (Ok(_), None) => true,
            (Err(e), Some(i)) => e@ == reply::told(
                400,
                "proxy group '"@ + expected@[i]@ + "' failed validation"@,
            ),
            _ => false,
        }),
{
    let ghost names = text::views(expected@);
    let ghost have = text::views(built@);
    let mut i: usize = 0;
    while i < expected.len()
        invariant
            i <= expected@.len(),
            names == text::views(expected@),
            have == text::views(built@),
            first_missing(names, have, 0) == first_missing(names, have, i as int),
        decreases expected@.len() - i,
    {
        assert(names[i as int] == expected@[i as int]@);
        if !text::has_string(built, expected[i].as_str()) {
            let m = "proxy group '".to_owned().concat(expected[i].as_str()).concat(
                "' failed validation",
            );
            return Err(reply::msg_err(reply::BAD_REQUEST, m.as_str()));
        }
        i += 1;
    }
    Ok(())
}

/// Puts a changed configuration in place of the current one, if it could be applied.
/// Hands back the configuration that holds from then on.
pub fn commit_raw_candidate(
    current: RawConfig,
    candidate: RawConfig,
    applied: Result<(), Reply>,
) -> (r: (RawConfig, Result<(), Reply>))
    ensures
        r.1 == applied,
        r.0 == (if applied is Ok {
            candidate
        } else {
            current
        }),
{
    match applied {
        Ok(done) => (candidate, Ok(done)),
        Err(e) => (current, Err(e)),
    }
}

/// What is known of a group while it runs.
#[derive(Clone, Debug)]
pub struct Running {
    pub members: Option<Vec<String>>,
    pub current: Option<String>,
}

/// What is told of a group.
#[derive(Clone, Debug)]
pub struct ProxyGroupInfo {
    pub name: String,
    pub group_type: String,
    pub proxies: Vec<String>,
    pub now: Option<String>,
    pub url: Option<String>,
    pub interval: Option<u64>,
    pub tolerance: Option<u16>,
}

/// A [`ProxyGroupInfo`] with its texts as sequences.
pub struct GroupInfoView {
    pub name: Seq<char>,
    pub group_type: Seq<char>,
    pub proxies: Seq<Seq<char>>,
    pub now: Option<Seq<char>>,
    pub url: Option<Seq<char>>,
    pub interval: Option<u64>,
    pub tolerance: Option<u16>,
}

impl View for ProxyGroupInfo {
    type V = GroupInfoView;

    open spec fn view(&self) -> GroupInfoView {
        GroupInfoView {
            name: self.name@,
            group_type: self.group_type@,
            proxies: text::views(self.proxies@),
            now: text::opt_view(self.now),
            url: text::opt_view(self.url),
            interval: self.interval,
            tolerance: self.tolerance,
        }
    }
}

/// What is told of a group: its members as it runs, or else as they are configured.
pub open spec fn group_told(g: RawProxyGroup, running: Option<Running>) -> GroupInfoView {
    GroupInfoView {
        name: g.name@,
        group_type: g.group_type@,
        proxies: match running {
            Some(Running { members: Some(m), .. }) => text::views(m@),
            _ => rules::rules_in(g.proxies),
        },
        now: match running {
            Some(r) => text::opt_view(r.current),
            None => None,
        },
        url: text::opt_view(g.url),
        interval: g.interval,
        tolerance: g.tolerance,
    }
}

fn copy_text(o: &Option<String>) -> (r: Option<String>)
    ensures
        text::opt_view(r) == text::opt_view(*o),
{
    match o {
        Some(s) => Some(s.clone()),
        None => None,
    }
}

/// Tells of every group, given what is known of each while it runs.
pub fn get_proxy_groups(groups: &Vec<RawProxyGroup>, running: &Vec<Option<Running>>) -> (out: Vec<
    ProxyGroupInfo,
>)
    requires
        running@.len() == groups@.len(),
    ensures
        out@.len() == groups@.len(),
        forall|i: int|
            0 <= i < out@.len() ==> (#[trigger] out@[i])@ == group_told(groups@[i], running@[i]),
{
    let mut out: Vec<ProxyGroupInfo> = Vec::new();
    let mut i: usize = 0;
    while i < groups.len()
        invariant
            i <= groups@.len(),
            running@.len() == groups@.len(),
            out@.len() == i,
            forall|j: int|
                0 <= j < i ==> (#[trigger] out@[j])@ == group_told(groups@[j], running@[j]),
        decreases groups@.len() - i,
    {
        let g = &groups[i];
        let configured = match &g.proxies {
            Some(v) => text::copy_strings(v),
            None => text::no_strings(),
        };
        let (proxies, now) = match &running[i] {
            Some(r) => (
                match &r.members {
                    Some(m) => text::copy_strings(m),
                    None => configured,
                },
                copy_text(&r.current),
            ),
            None => (configured, None),
        };
        out.push(
            ProxyGroupInfo {
                name: g.name.clone(),
                group_type: g.group_type.clone(),
                proxies,
                now,
                url: copy_text(&g.url),
                interval: g.interval,
                tolerance: g.tolerance,
            },
        );
        i += 1;
    }
    out
}

} // verus!
