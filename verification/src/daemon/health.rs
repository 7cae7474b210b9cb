//! Health checks of groups.

use crate::config::raw::RawProxyGroup;
use crate::text;
use vstd::prelude::*;
use vstd::string::*;

verus! {

/// What is fetched to see whether a proxy works, where nothing else is set.
pub const DEFAULT_URL: &'static str = "http://www.gstatic.com/generate_204";

/// How often a group is checked, in seconds, where nothing else is set.
pub const DEFAULT_INTERVAL_SECS: u64 = 300;

/// How a group is checked.
#[derive(Clone, Debug)]
pub struct HealthCheckSpec {
    pub group_name: String,
    pub url: String,
    pub interval_secs: u64,
    /// Whether the first check waits for the first interval to pass.
    pub lazy: bool,
}

/// A [`HealthCheckSpec`] with its texts as sequences.
pub struct CheckView {
    pub group_name: Seq<char>,
    pub url: Seq<char>,
    pub interval_secs: u64,
    pub lazy: bool,
}

impl View for HealthCheckSpec {
    type V = CheckView;

    open spec fn view(&self) -> CheckView {
        CheckView {
            group_name: self.group_name@,
            url: self.url@,
            interval_secs: self.interval_secs,
            lazy: self.lazy,
        }
    }
}

/// Checks as mathematical values.
pub open spec fn check_views(v: Seq<HealthCheckSpec>) -> Seq<CheckView> {
    v.map_values(|s: HealthCheckSpec| s@)
}

/// Whether a group picks its member by how members answer.
pub open spec fn is_checked(g: RawProxyGroup) -> bool {
    g.group_type@ == "fallback"@ || g.group_type@ == "url-test"@
}

/// How a group is checked.
pub open spec fn check_of(g: RawProxyGroup) -> CheckView {
    CheckView {
        group_name: g.name@,
        url: match g.url {
            Some(u) => u@,
            None => DEFAULT_URL@,
        },
        interval_secs: match g.interval {
            Some(n) => n,
            None => DEFAULT_INTERVAL_SECS,
        },
        lazy: g.lazy == Some(true),
    }
}

/// How groups are checked.
pub open spec fn checks_of(groups: Seq<RawProxyGroup>) -> Seq<CheckView>
    decreases groups.len(),
{
    if groups.len() == 0 {
        Seq::empty()
    } else {
        let r = checks_of(groups.drop_last());
        if is_checked(groups.last()) {
            r.push(check_of(groups.last()))
        } else {
            r
        }
    }
}

/// How the groups of a configuration are checked: those that pick their member by
/// how members answer.
pub fn extract_specs(raw_groups: &Vec<RawProxyGroup>) -> (out: Vec<HealthCheckSpec>)
    ensures
        check_views(out@) == checks_of(raw_groups@),
{
    let ghost all = raw_groups@;
    let mut out: Vec<HealthCheckSpec> = Vec::new();
    let mut i: usize = 0;
    assert(all.take(0) =~= Seq::empty());
    assert(check_views(out@) =~= Seq::empty());
    while i < raw_groups.len()
        invariant
            i <= raw_groups@.len(),
            all == raw_groups@,
            check_views(out@) == checks_of(all.take(i as int)),
        decreases raw_groups@.len() - i,
    {
        let g = &raw_groups[i];
        assert(all.take(i + 1).drop_last() =~= all.take(i as int));
        assert(all.take(i + 1).last() == *g);
        if text::same(g.group_type.as_str(), "fallback") || text::same(
            g.group_type.as_str(),
            "url-test",
        ) {
            let url = match &g.url {
                Some(u) => u.clone(),
                None => DEFAULT_URL.to_owned(),
            };
            let interval_secs: u64 = match g.interval {
                Some(n) => n,
                None => DEFAULT_INTERVAL_SECS,
            };
            let lazy = match g.lazy {
                Some(b) => b,
                None => false,
            };
            let ghost had = check_views(out@);
            let s = HealthCheckSpec { group_name: g.name.clone(), url, interval_secs, lazy };
            out.push(s);
            assert(check_views(out@) =~= had.push(s@));
        }
        i += 1;
    }
    assert(all.take(i as int) =~= all);
    out
}

/// Every check is of a group of the configuration that picks its member by how
/// members answer.
pub proof fn law_checks_are_of_groups(groups: Seq<RawProxyGroup>, k: int)
    requires
        0 <= k < checks_of(groups).len(),
    ensures
        exists|i: int|
            0 <= i < groups.len() && is_checked(#[trigger] groups[i]) && checks_of(groups)[k]
                == check_of(groups[i]),
    decreases groups.len(),
{
    let f = groups.drop_last();
    if k < checks_of(f).len() {
        law_checks_are_of_groups(f, k);
        let i = choose|i: int|
            0 <= i < f.len() && is_checked(#[trigger] f[i]) && checks_of(f)[k] == check_of(f[i]);
        assert(groups[i] == f[i]);
    } else {
        assert(is_checked(groups[groups.len() - 1]));
    }
}

/// The members among names that exist.
pub open spec fn existing(names: Seq<Seq<char>>, known: Seq<bool>) -> Seq<Seq<char>>
    decreases names.len(),
{
    if names.len() == 0 {
        Seq::empty()
    } else {
        let r = existing(names.drop_last(), known);
        if known[names.len() - 1] {
            r.push(names.last())
        } else {
            r
        }
    }
}

/// The members of a group that are checked: those that exist.
pub fn members_to_check(names: &Vec<String>, known: &Vec<bool>) -> (out: Vec<String>)
    requires
        names@.len() == known@.len(),
    ensures
        text::views(out@) == existing(text::views(names@), known@),
{
    let ghost all = text::views(names@);
    let mut out = text::no_strings();
    let mut i: usize = 0;
    assert(all.take(0) =~= Seq::empty());
    while i < names.len()
        invariant
            i <= names@.len(),
            names@.len() == known@.len(),
            all == text::views(names@),
            text::views(out@) == existing(all.take(i as int), known@),
        decreases names@.len() - i,
    {
        assert(all.take(i + 1).drop_last() =~= all.take(i as int));
        assert(all.take(i + 1).last() == names@[i as int]@);
        if known[i] {
            text::push_string(&mut out, names[i].clone());
        }
        i += 1;
    }
    assert(all.take(i as int) =~= all);
    out
}

/// How many members answered.
pub open spec fn answered(delays: Seq<u16>) -> nat
    decreases delays.len(),
{
    if delays.len() == 0 {
        0
    } else {
        answered(delays.drop_last()) + (if delays.last() > 0 {
            1nat
        } else {
            0nat
        })
    }
}

/// What came of a check: how many members answered, and of how many. A delay of 0
/// means that a member did not.
pub fn tally(delays: &Vec<u16>) -> (r: (u32, u32))
    requires
        delays@.len() <= u32::MAX,
    ensures
        r.0 == answered(delays@),
        r.1 == delays@.len(),
        r.0 <= r.1,
{
    let mut alive: u32 = 0;
    let mut i: usize = 0;
    assert(delays@.take(0) =~= Seq::empty());
    while i < delays.len()
        invariant
            i <= delays@.len(),
            delays@.len() <= u32::MAX,
            alive <= i,
            alive == answered(delays@.take(i as int)),
        decreases delays@.len() - i,
    {
        assert(delays@.take(i + 1).drop_last() =~= delays@.take(i as int));
        if delays[i] > 0 {
            alive += 1;
        }
        i += 1;
    }
    assert(delays@.take(i as int) =~= delays@);
    (alive, i as u32)
}

} // verus!
