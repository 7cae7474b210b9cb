//! Changes to subscriptions: their proxies, groups and rules take the place of the
//! local ones.

use crate::api::reply;
use crate::api::reply::Reply;
use crate::config::raw::{RawConfig, RawProxyGroup, RawSubscription};
use crate::config::yaml::Options;
use crate::text;
use vstd::prelude::*;
use vstd::string::*;

verus! {

/// What a subscription brought.
#[derive(Debug)]
pub struct Fetched {
    pub proxies: Vec<Options>,
    pub proxy_groups: Vec<RawProxyGroup>,
    pub rules: Vec<String>,
}

/// The subscriptions of a configuration, which may have none.
pub open spec fn subscriptions_in(o: Option<Vec<RawSubscription>>) -> Seq<RawSubscription> {
    match o {
        Some(v) => v@,
        None => Seq::empty(),
    }
}

/// Where a subscription stands.
pub open spec fn subscription_at(s: Seq<RawSubscription>, name: Seq<char>, from: int) -> Option<int>
    decreases s.len() - from,
{
    if from < 0 || from >= s.len() {
        None
    } else if s[from].name@ == name {
        Some(from)
    } else {
        subscription_at(s, name, from + 1)
    }
}

fn find_subscription(s: &Vec<RawSubscription>, name: &str) -> (r: Option<usize>)
    ensures
        (match r {
            Some(i) => i < s@.len() && s@[i as int].name@ == name@ && subscription_at(s@, name@, 0)
                == Some(i as int),
            None => subscription_at(s@, name@, 0) is None,
        }),
{
    let mut i: usize = 0;
    while i < s.len()
        invariant
            i <= s@.len(),
            subscription_at(s@, name@, 0) == subscription_at(s@, name@, i as int),
        decreases s@.len() - i,
    {
        if text::same(s[i].name.as_str(), name) {
            return Some(i);
        }
        i += 1;
    }
    None
}

/// A configuration with what a subscription brought.
pub open spec fn filled(
    raw: RawConfig,
    subscriptions: Option<Vec<RawSubscription>>,
    f: Fetched,
) -> RawConfig {
    RawConfig {
        subscriptions,
        proxies: Some(f.proxies),
        proxy_groups: Some(f.proxy_groups),
        rules: Some(f.rules),
        ..raw
    }
}

/// What adding a subscription leaves of the configuration, and how it is answered.
pub open spec fn added(
    before: RawConfig,
    s: RawSubscription,
    fetched: Fetched,
    after: RawConfig,
    r: Result<(), Reply>,
) -> bool {
    match r {
        Ok(_) => {
            &&& subscription_at(subscriptions_in(before.subscriptions), s.name@, 0) is None
            &&& subscriptions_in(after.subscriptions) == subscriptions_in(
                before.subscriptions,
            ).push(s)
            &&& after == filled(before, after.subscriptions, fetched)
        },
        Err(e) => {
            &&& subscription_at(subscriptions_in(before.subscriptions), s.name@, 0) is Some
            &&& after == before
            &&& e@ == reply::told(409, "subscription name already exists"@)
        },
    }
}

/// Adds a subscription that was just fetched. Its name must be free.
pub fn add_subscription(
    raw: &mut RawConfig,
    name: String,
    url: String,
    interval: Option<u64>,
    fetched: Fetched,
    now: i64,
) -> (r: Result<(), Reply>)
    ensures
        added(
            *old(raw),
            (RawSubscription { name, url, interval, last_updated: Some(now) }),
            fetched,
            *final(raw),
            r,
        ),
{
    if let Some(v) = &raw.subscriptions {
        if let Some(_) = find_subscription(v, name.as_str()) {
            return Err(reply::msg_err(reply::CONFLICT, "subscription name already exists"));
        }
    }
    let mut v = match raw.subscriptions.take() {
        Some(v) => v,
        None => Vec::new(),
    };
    assert(v@ == subscriptions_in(old(raw).subscriptions));
    v.push(RawSubscription { name, url, interval, last_updated: Some(now) });
    raw.subscriptions = Some(v);
    raw.proxies = Some(fetched.proxies);
    raw.proxy_groups = Some(fetched.proxy_groups);
    raw.rules = Some(fetched.rules);
    Ok(())
}

/// The subscriptions of another name.
pub open spec fn without_subscription(s: Seq<RawSubscription>, name: Seq<char>) -> Seq<
    RawSubscription,
>
    decreases s.len(),
{
    if s.len() == 0 {
        Seq::empty()
    } else {
        let r = without_subscription(s.drop_last(), name);
        if s.last().name@ == name {
            r
        } else {
            r.push(s.last())
        }
    }
}

/// What deleting a subscription leaves of the configuration, and how it is answered.
pub open spec fn deleted(
    before: RawConfig,
    name: Seq<char>,
    after: RawConfig,
    r: Result<(), Reply>,
) -> bool {
    match r {
        Ok(_) => {
            &&& subscription_at(subscriptions_in(before.subscriptions), name, 0) is Some
            &&& after.subscriptions is Some
            &&& subscriptions_in(after.subscriptions) == without_subscription(
                subscriptions_in(before.subscriptions),
                name,
            )
            &&& after.proxies matches Some(p) && p@.len() == 0
            &&& after.proxy_groups matches Some(g) && g@.len() == 0
            &&& after.rules matches Some(l) && l@.len() == 0
            &&& after == (RawConfig {
                subscriptions: after.subscriptions,
                proxies: after.proxies,
                proxy_groups: after.proxy_groups,
                rules: after.rules,
                ..before
            })
        },
        Err(e) => {
            &&& subscription_at(subscriptions_in(before.subscriptions), name, 0) is None
            &&& after == before
            &&& e@ == reply::told(
                404,
                if before.subscriptions is Some {
                    "subscription not found"@
                } else {
                    "no subscriptions"@
                },
            )
        },
    }
}

/// Takes a subscription out. What it brought goes with it.
pub fn delete_subscription(raw: &mut RawConfig, name: &str) -> (r: Result<(), Reply>)
    ensures
        deleted(*old(raw), name@, *final(raw), r),
{
    let found = match &raw.subscriptions {
        Some(v) => find_subscription(v, name).is_some(),
        None => return Err(reply::msg_err(reply::NOT_FOUND, "no subscriptions")),
    };
    if !found {
        return Err(reply::msg_err(reply::NOT_FOUND, "subscription not found"));
    }
    let mut rest = match raw.subscriptions.take() {
        Some(v) => v,
        None => Vec::new(),
    };
    let ghost was = rest@;
    let mut kept: Vec<RawSubscription> = Vec::new();
    let ghost mut i: int = 0;
    assert(was.take(0) =~= Seq::empty());
    while rest.len() > 0
        invariant
            0 <= i <= was.len(),
            rest@ == was.skip(i),
            kept@ == without_subscription(was.take(i), name@),
        decreases rest@.len(),
    {
        assert(was.take(i + 1).drop_last() =~= was.take(i));
        assert(was.take(i + 1).last() == was[i]);
        let s = rest.remove(0);
        assert(s == was[i]);
        assert(rest@ =~= was.skip(i + 1));
        if !text::same(s.name.as_str(), name) {
            kept.push(s);
        }
        proof {
            i = i + 1;
        }
    }
    assert(was.take(i) =~= was);
    raw.subscriptions = Some(kept);
    raw.proxies = Some(Vec::new());
    raw.proxy_groups = Some(Vec::new());
    raw.rules = Some(Vec::new());
    Ok(())
}

/// A subscription that was taken out is gone.
pub proof fn law_deleted_subscriptions_are_gone(s: Seq<RawSubscription>, name: Seq<char>)
    ensures
        subscription_at(without_subscription(s, name), name, 0) is None,
{
    let l = without_subscription(s, name);
    assert forall|i: int| 0 <= i < l.len() implies (#[trigger] l[i]).name@ != name by {
        lemma_others_have_other_names(s, name, i);
    }
    lemma_not_found(l, name, 0);
}

proof fn lemma_others_have_other_names(s: Seq<RawSubscription>, name: Seq<char>, i: int)
    requires
        0 <= i < without_subscription(s, name).len(),
    ensures
        without_subscription(s, name)[i].name@ != name,
    decreases s.len(),
{
    let f = s.drop_last();
    if i < without_subscription(f, name).len() {
        lemma_others_have_other_names(f, name, i);
    }
}

proof fn lemma_not_found(s: Seq<RawSubscription>, name: Seq<char>, from: int)
    requires
        0 <= from,
        forall|i: int| 0 <= i < s.len() ==> (#[trigger] s[i]).name@ != name,
    ensures
        subscription_at(s, name, from) is None,
    decreases s.len() - from,
{
    if from < s.len() {
        lemma_not_found(s, name, from + 1);
    }
}

/// The address of a subscription.
pub fn subscription_url(subscriptions: &Option<Vec<RawSubscription>>, name: &str) -> (r: Result<
    String,
    Reply,
>)
    ensures
        (match (r, subscription_at(subscriptions_in(*subscriptions), name@, 0)) {
            (Ok(u), Some(i)) => u@ == subscriptions_in(*subscriptions)[i].url@,
            (Err(e), None) => e@ == reply::told(404, "subscription not found"@),
            _ => false,
        }),
{
    if let Some(v) = subscriptions {
        if let Some(i) = find_subscription(v, name) {
            return Ok(v[i].url.clone());
        }
    }
    Err(reply::msg_err(reply::NOT_FOUND, "subscription not found"))
}

/// What refreshing a subscription leaves of the configuration.
pub open spec fn refreshed(
    before: RawConfig,
    name: Seq<char>,
    fetched: Fetched,
    now: i64,
    after: RawConfig,
) -> bool {
    &&& after.subscriptions is Some == before.subscriptions is Some
    &&& subscriptions_in(after.subscriptions) == (match subscription_at(
        subscriptions_in(before.subscriptions),
        name,
        0,
    ) {
        Some(i) => subscriptions_in(before.subscriptions).update(
            i,
            (RawSubscription {
                last_updated: Some(now),
                ..subscriptions_in(before.subscriptions)[i]
            }),
        ),
        None => subscriptions_in(before.subscriptions),
    })
    &&& after == filled(before, after.subscriptions, fetched)
}

/// Puts what a subscription brought in place, and notes when it was fetched.
pub fn refresh_subscription(raw: &mut RawConfig, name: &str, fetched: Fetched, now: i64)
    ensures
        refreshed(*old(raw), name@, fetched, now, *final(raw)),
{
    if let Some(v) = raw.subscriptions.take() {
        let mut v = v;
        if let Some(i) = find_subscription(&v, name) {
            let ghost was = v@;
            let old = v.remove(i);
            let s = RawSubscription {
                name: old.name,
                url: old.url,
                interval: old.interval,
                last_updated: Some(now),
            };
            v.insert(i, s);
            assert(v@ =~= was.update(i as int, s));
        }
        raw.subscriptions = Some(v);
    }
    raw.proxies = Some(fetched.proxies);
    raw.proxy_groups = Some(fetched.proxy_groups);
    raw.rules = Some(fetched.rules);
}

/// The answer where a subscription could not be fetched.
pub fn fetch_failed(error: &str) -> (r: Reply)
    ensures
        r@ == reply::told(400, "fetch failed: "@ + error@),
{
    reply::msg_err(reply::BAD_REQUEST, "fetch failed: ".to_owned().concat(error).as_str())
}

/// What is told of a subscription.
#[derive(Clone, Debug)]
pub struct SubscriptionInfo {
    pub name: String,
    pub url: String,
    pub interval: Option<u64>,
    pub last_updated: Option<i64>,
    pub proxy_count: usize,
    pub group_count: usize,
    pub rule_count: usize,
}

/// How many items a list has that may be missing.
pub open spec fn count_of<T>(o: Option<Vec<T>>) -> nat {
    match o {
        Some(v) => v@.len(),
        None => 0,
    }
}

fn count<T>(o: &Option<Vec<T>>) -> (n: usize)
    ensures
        n == count_of(*o),
{
    match o {
        Some(v) => v.len(),
        None => 0,
    }
}

/// Whether what is told of a subscription is so.
pub open spec fn told_of(i: SubscriptionInfo, s: RawSubscription, raw: RawConfig) -> bool {
    &&& i.name@ == s.name@
    &&& i.url@ == s.url@
    &&& i.interval == s.interval
    &&& i.last_updated == s.last_updated
    &&& i.proxy_count == count_of(raw.proxies)
    &&& i.group_count == count_of(raw.proxy_groups)
    &&& i.rule_count == count_of(raw.rules)
}

/// Tells of every subscription.
pub fn get_subscriptions(raw: &RawConfig) -> (out: Vec<SubscriptionInfo>)
    ensures
        out@.len() == subscriptions_in(raw.subscriptions).len(),
        forall|i: int|
            0 <= i < out@.len() ==> told_of(
                #[trigger] out@[i],
                subscriptions_in(raw.subscriptions)[i],
                *raw,
            ),
{
    let mut out: Vec<SubscriptionInfo> = Vec::new();
    if let Some(v) = &raw.subscriptions {
        let mut i: usize = 0;
        while i < v.len()
            invariant
                i <= v@.len(),
                out@.len() == i,
                raw.subscriptions == Some(*v),
                forall|j: int| 0 <= j < i ==> told_of(#[trigger] out@[j], v@[j], *raw),
            decreases v@.len() - i,
        {
            let s = &v[i];
            out.push(
                SubscriptionInfo {
                    name: s.name.clone(),
                    url: s.url.clone(),
                    interval: s.interval,
                    last_updated: s.last_updated,
                    proxy_count: count(&raw.proxies),
                    group_count: count(&raw.proxy_groups),
                    rule_count: count(&raw.rules),
                },
            );
            i += 1;
        }
    }
    out
}

} // verus!
