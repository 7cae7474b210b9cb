//! What holds of the lists that the control interface tells and changes: groups, rules,
//! subscriptions, proxies and providers.

use crate::api::delay;
use crate::api::groups;
use crate::api::groups::{GroupRequest, Left, ProxyGroupInfo, Running};
use crate::api::providers;
use crate::api::providers::{
    HealthStep, ListenerInfo, ProviderHealth, ProviderInfo, RuleProviderInfo,
};
use crate::api::proxies;
use crate::api::proxies::{ProxyInfo, ProxyState, Selectable};
use crate::api::reply::Reply;
use crate::api::rules;
use crate::api::rules::{RuleInfo, RunningRule};
use crate::api::subscriptions;
use crate::api::subscriptions::{Fetched, SubscriptionInfo};
use crate::common::rule::RuleType;
use crate::config::listener::NamedListener;
use crate::config::raw::{RawConfig, RawProxyGroup, RawRuleProvider, RawSubscription};
use crate::config::rule_provider::ProviderView;
use crate::text;
use vstd::prelude::*;
use vstd::string::*;

verus! {

/// The first group of a name is found exactly where there is one.
pub proof fn law_the_first_group_is_found(g: Seq<RawProxyGroup>, name: Seq<char>, from: int)
    requires
        0 <= from <= g.len(),
    ensures
        groups::group_at(g, name, from) matches Some(i) ==> from <= i < g.len() && g[i].name@
            == name && forall|j: int| from <= j < i ==> (#[trigger] g[j]).name@ != name,
        groups::group_at(g, name, from) is None ==> forall|j: int|
            from <= j < g.len() ==> (#[trigger] g[j]).name@ != name,
    decreases g.len() - from,
{
    if from < g.len() {
        law_the_first_group_is_found(g, name, from + 1);
    }
}

/// A new group stands behind the others, as it was asked for and with nothing else set;
/// the others stay. A name that is taken is refused.
pub proof fn law_groups_are_created(
    given: Option<Vec<RawProxyGroup>>,
    body: GroupRequest,
    r: Result<Vec<RawProxyGroup>, Reply>,
)
    requires
        call_ensures(groups::create_proxy_group, (given, body), r),
    ensures
        r is Ok <==> forall|i: int|
            0 <= i < groups::groups_in(given).len() ==> (#[trigger] groups::groups_in(
                given,
            )[i]).name@ != body.name@,
        r matches Ok(v) ==> {
            let g = v@.last();
            &&& v@ == groups::groups_in(given).push(g)
            &&& g.name == body.name && g.group_type == body.group_type
            &&& g.proxies == Some(body.proxies)
            &&& g.url == body.url && g.interval == body.interval && g.tolerance == body.tolerance
            &&& g.strategy is None && g.lazy is None && g.use_providers is None
            &&& g.filter is None && g.exclude_filter is None && g.exclude_type is None
            &&& g.include_all is None && g.include_all_proxies is None
        },
        r matches Err(e) ==> e.status == 409,
        given is None ==> groups::groups_in(given).len() == 0,
{
    law_the_first_group_is_found(groups::groups_in(given), body.name@, 0);
    if let Ok(v) = r {
        assert(v@ =~= v@.drop_last().push(v@.last()));
    }
}

/// Updating sets what was asked for on the first group of the name. Its name and the rest
/// of it stay, and so do the other groups and their order.
pub proof fn law_groups_are_updated(
    given: Option<Vec<RawProxyGroup>>,
    name: &str,
    body: GroupRequest,
    r: Result<Vec<RawProxyGroup>, Reply>,
)
    requires
        call_ensures(groups::update_proxy_group, (given, name, body), r),
    ensures
        r is Err <==> forall|i: int|
            0 <= i < groups::groups_in(given).len() ==> (#[trigger] groups::groups_in(
                given,
            )[i]).name@ != name@,
        r matches Err(e) ==> e.status == 404,
        r matches Ok(v) ==> {
            let b = groups::groups_in(given);
            &&& v@.len() == b.len()
            &&& forall|i: int| 0 <= i < v@.len() ==> (#[trigger] v@[i]).name == b[i].name
            &&& exists|i: int|
                0 <= i < v@.len() && (#[trigger] v@[i]).name@ == name@ && v@[i].group_type
                    == body.group_type && v@[i].proxies == Some(body.proxies) && v@[i].url
                    == body.url && v@[i].interval == body.interval && v@[i].tolerance
                    == body.tolerance && v@[i].strategy == b[i].strategy && v@[i].lazy
                    == b[i].lazy && v@[i].use_providers == b[i].use_providers && v@[i].filter
                    == b[i].filter && v@[i].exclude_filter == b[i].exclude_filter
                    && v@[i].exclude_type == b[i].exclude_type && v@[i].include_all
                    == b[i].include_all && v@[i].include_all_proxies == b[i].include_all_proxies
                    && v@ == b.update(i, v@[i]) && forall|j: int|
                    0 <= j < i ==> (#[trigger] b[j]).name@ != name@
        },
{
    let b = groups::groups_in(given);
    law_the_first_group_is_found(b, name@, 0);
    if let Ok(v) = r {
        let i = groups::group_at(b, name@, 0)->0;
        assert(v@ =~= b.update(i, v@[i]));
    }
}

/// Deleting leaves out the groups of the name and keeps the others in order.
pub proof fn law_other_groups_stay(g: Seq<RawProxyGroup>, x: RawProxyGroup, name: Seq<char>)
    ensures
        groups::without_group(Seq::empty(), name).len() == 0,
        x.name@ == name ==> groups::without_group(g.push(x), name) == groups::without_group(
            g,
            name,
        ),
        x.name@ != name ==> groups::without_group(g.push(x), name) == groups::without_group(
            g,
            name,
        ).push(x),
{
    assert(g.push(x).drop_last() =~= g);
}

/// With a group go the rules that lead to it; a group that is not there cannot be deleted.
pub proof fn law_groups_are_deleted(
    given: Option<Vec<RawProxyGroup>>,
    list: Option<Vec<String>>,
    name: &str,
    r: Result<Left, Reply>,
)
    requires
        call_ensures(groups::delete_proxy_group, (given, list, name), r),
    ensures
        r is Err <==> forall|i: int|
            0 <= i < groups::groups_in(given).len() ==> (#[trigger] groups::groups_in(
                given,
            )[i]).name@ != name@,
        r matches Err(e) ==> e.status == 404 && (given is Some ==> e@.message == Some(
            "group not found"@,
        )) && (given is None ==> e@.message == Some("no groups"@)),
        r matches Ok(l) ==> l.groups@ == groups::without_group(groups::groups_in(given), name@) && (
        l.rules is Some <==> list is Some) && rules::rules_in(l.rules) == rules::without_target(
            rules::rules_in(list),
            name@,
        ),
{
    law_the_first_group_is_found(groups::groups_in(given), name@, 0);
}

/// Groups are right where every group that was asked for was built; the first that was
/// not is told.
pub proof fn law_every_group_must_be_built(
    expected: &Vec<String>,
    built: &Vec<String>,
    r: Result<(), Reply>,
)
    requires
        call_ensures(groups::check_groups, (expected, built), r),
    ensures
        r is Ok <==> forall|i: int|
            0 <= i < expected@.len() ==> text::views(built@).contains((#[trigger] expected@[i])@),
        r matches Err(e) ==> e.status == 400 && exists|i: int|
            0 <= i < expected@.len() && !text::views(built@).contains((#[trigger] expected@[i])@)
                && e@.message == Some(
                "proxy group '"@ + expected@[i]@ + "' failed validation"@,
            ),
{
    lemma_first_missing(text::views(expected@), text::views(built@), 0);
    assert forall|i: int| 0 <= i < expected@.len() implies text::views(expected@)[i]
        == #[trigger] expected@[i]@ by {}
    if r is Err {
        let i = groups::first_missing(text::views(expected@), text::views(built@), 0)->0;
        assert(text::views(expected@)[i] == expected@[i]@);
    }
}

proof fn lemma_first_missing(expected: Seq<Seq<char>>, built: Seq<Seq<char>>, from: int)
    requires
        0 <= from <= expected.len(),
    ensures
        groups::first_missing(expected, built, from) matches Some(i) ==> from <= i < expected.len()
            && !built.contains(expected[i]) && forall|j: int|
            from <= j < i ==> built.contains(#[trigger] expected[j]),
        groups::first_missing(expected, built, from) is None ==> forall|j: int|
            from <= j < expected.len() ==> built.contains(#[trigger] expected[j]),
    decreases expected.len() - from,
{
    if from < expected.len() {
        lemma_first_missing(expected, built, from + 1);
    }
}

/// A candidate takes the place of the configuration exactly where it could be applied.
pub proof fn law_candidates_are_committed(
    current: RawConfig,
    candidate: RawConfig,
    applied: Result<(), Reply>,
    r: (RawConfig, Result<(), Reply>),
)
    requires
        call_ensures(groups::commit_raw_candidate, (current, candidate, applied), r),
    ensures
        applied is Ok ==> r.0 == candidate && r.1 is Ok,
        applied is Err ==> r.0 == current && r.1 == applied,
{
}

/// What is told of a group: what is configured, with the members and the choice that run.
pub proof fn law_what_is_told_of_groups(
    given: &Vec<RawProxyGroup>,
    running: &Vec<Option<Running>>,
    out: Vec<ProxyGroupInfo>,
    i: int,
)
    requires
        running@.len() == given@.len(),
        call_ensures(groups::get_proxy_groups, (given, running), out),
        0 <= i < given@.len(),
    ensures
        out@.len() == given@.len(),
        ({
            let o = out@[i]@;
            let g = given@[i];
            &&& o.name == g.name@
            &&& o.group_type == g.group_type@
            &&& o.url == text::opt_view(g.url)
            &&& o.interval == g.interval
            &&& o.tolerance == g.tolerance
            &&& running@[i] is None ==> o.now is None && o.proxies == rules::rules_in(g.proxies)
            &&& running@[i] matches Some(x) ==> o.now == text::opt_view(x.current) && (
            x.members matches Some(m) ==> o.proxies == text::views(m@)) && (x.members is None
                ==> o.proxies == rules::rules_in(g.proxies))
        }),
{
    assert(out@[i]@ == groups::group_told(given@[i], running@[i]));
}

/// A rule is changed in its place: the others stay where they are, and there are as many
/// as before. Deleting takes the rule out and closes the gap.
pub proof fn law_rules_are_changed_in_place(
    list: Option<Vec<String>>,
    index: usize,
    text_of: String,
    set: Result<Vec<String>, Reply>,
    cut: Result<Vec<String>, Reply>,
)
    requires
        call_ensures(rules::update_rule_at_index, (list, index, text_of), set),
        call_ensures(rules::delete_rule, (list, index), cut),
    ensures
        set is Ok <==> index < rules::rules_in(list).len(),
        cut is Ok <==> index < rules::rules_in(list).len(),
        set matches Err(e) ==> e.status == 400,
        cut matches Err(e) ==> e.status == 400,
        set matches Ok(v) ==> v@.len() == rules::rules_in(list).len() && v@[index as int]@
            == text_of@ && forall|i: int|
            0 <= i < v@.len() && i != index ==> (#[trigger] v@[i])@ == rules::rules_in(list)[i],
        cut matches Ok(v) ==> v@.len() == rules::rules_in(list).len() - 1 && (forall|i: int|
            0 <= i < index ==> (#[trigger] v@[i])@ == rules::rules_in(list)[i]) && (forall|i: int|
            index <= i < v@.len() ==> (#[trigger] v@[i])@ == rules::rules_in(list)[i + 1]),
        list is None ==> set is Err && cut is Err,
{
    let b = rules::rules_in(list);
    if let Ok(v) = set {
        let w = text::views(v@);
        assert(w.len() == v@.len());
        assert forall|i: int| 0 <= i < v@.len() implies (#[trigger] v@[i])@ == b.update(
            index as int,
            text_of@,
        )[i] by {
            assert(w[i] == v@[i]@);
        }
        assert(v@[index as int]@ == b.update(index as int, text_of@)[index as int]);
    }
    if let Ok(v) = cut {
        let w = text::views(v@);
        assert(w.len() == v@.len());
        assert forall|i: int| 0 <= i < v@.len() implies (#[trigger] v@[i])@ == b.remove(
            index as int,
        )[i] by {
            assert(w[i] == v@[i]@);
        }
    }
}

/// A rule that is moved stands at its new place, and the others keep their order.
pub proof fn law_rules_are_moved(list: Seq<Seq<char>>, from: int, to: int, i: int)
    requires
        0 <= from < list.len(),
        0 <= to < list.len(),
        0 <= i < list.len(),
    ensures
        rules::moved(list, from, to)[to] == list[from],
        i < from && i < to ==> rules::moved(list, from, to)[i] == list[i],
        i > from && i > to ==> rules::moved(list, from, to)[i] == list[i],
        from <= i < to ==> rules::moved(list, from, to)[i] == list[i + 1],
        to < i <= from ==> rules::moved(list, from, to)[i] == list[i - 1],
{
}

/// Rules are moved exactly where both places exist.
pub proof fn law_when_rules_are_moved(
    list: Option<Vec<String>>,
    from: usize,
    to: usize,
    r: Result<Vec<String>, Reply>,
)
    requires
        call_ensures(rules::reorder_rules, (list, from, to), r),
    ensures
        r is Ok <==> from < rules::rules_in(list).len() && to < rules::rules_in(list).len(),
        r matches Ok(v) ==> text::views(v@) == rules::moved(
            rules::rules_in(list),
            from as int,
            to as int,
        ),
        r matches Err(e) ==> e.status == 400,
{
}

/// A rule leads to what stands behind its last comma, and the rules that lead elsewhere
/// stay in order.
pub proof fn law_rules_lead_to_their_last_part(
    head: Seq<char>,
    target: Seq<char>,
    list: Seq<Seq<char>>,
    x: Seq<char>,
    name: Seq<char>,
)
    requires
        !target.contains(','),
    ensures
        rules::rule_target(head.push(',') + target) == text::trimmed(target),
        rules::rule_target(target) == text::trimmed(target),
        rules::without_target(Seq::empty(), name).len() == 0,
        rules::rule_target(x) == name ==> rules::without_target(list.push(x), name)
            == rules::without_target(list, name),
        rules::rule_target(x) != name ==> rules::without_target(list.push(x), name)
            == rules::without_target(list, name).push(x),
{
    assert(list.push(x).drop_last() =~= list);
    text::lemma_one_part(target, ',');
    lemma_last_part(head, target);
}

proof fn lemma_last_part(head: Seq<char>, target: Seq<char>)
    requires
        !target.contains(','),
    ensures
        text::parts(head.push(',') + target, ',').last() == target,
{
    let s = head.push(',') + target;
    let p = text::parts(s, ',');
    crate::text_laws::law_join_undoes_split(s, ',');
    let l = p.last();
    let q = p.drop_last();
    if p.len() == 1 {
        assert(text::joined(p, seq![',']) =~= l) by {
            reveal_with_fuel(text::joined, 2);
        }
        assert(s[head.len() as int] == ',');
        assert(l.contains(','));
        assert(p.contains(l)) by {
            assert(p[0] == l);
        }
    } else {
        let j = text::joined(q, seq![',']);
        assert(text::joined(p, seq![',']) == j + seq![','] + l);
        assert(p[p.len() - 1] == l);
        let a = j.len() as int;
        let b = head.len() as int;
        assert(s[a] == ',');
        assert(s[b] == ',');
        if a < b {
            assert(l[b - a - 1] == s[b]);
            assert(l.contains(','));
        }
        if b < a {
            assert(target[a - b - 1] == s[a]);
            assert(target.contains(','));
        }
        assert(l =~= target) by {
            assert(s.skip(a + 1) =~= l);
            assert(s.skip(b + 1) =~= target);
        }
    }
}

/// What is told of a rule: its place, its type, what it looks at and where it leads.
pub proof fn law_what_is_told_of_rules(list: &Vec<RunningRule>, out: Vec<RuleInfo>, i: int)
    requires
        call_ensures(rules::get_rules, (list,), out),
        0 <= i < list@.len(),
    ensures
        out@.len() == list@.len(),
        out@[i].index == i,
        out@[i].payload@ == list@[i].payload@,
        out@[i].proxy@ == list@[i].adapter@,
        out@[i].size == -1,
        out@[i].rule_type@ == crate::common::rule::rule_name(list@[i].rule_type),
{
    assert(rules::rule_told(out@[i], i, list@[i]));
}

/// The types of rules go by these names.
pub proof fn law_types_of_rules_go_by_names(t: RuleType)
    ensures
        t is Domain ==> crate::common::rule::rule_name(t) == "DOMAIN"@,
        t is DomainSuffix ==> crate::common::rule::rule_name(t) == "DOMAIN-SUFFIX"@,
        t is DomainKeyword ==> crate::common::rule::rule_name(t) == "DOMAIN-KEYWORD"@,
        t is DomainRegex ==> crate::common::rule::rule_name(t) == "DOMAIN-REGEX"@,
        t is DomainWildcard ==> crate::common::rule::rule_name(t) == "DOMAIN-WILDCARD"@,
        t is GeoSite ==> crate::common::rule::rule_name(t) == "GEOSITE"@,
        t is GeoIp ==> crate::common::rule::rule_name(t) == "GEOIP"@,
        t is SrcGeoIp ==> crate::common::rule::rule_name(t) == "SRC-GEOIP"@,
        t is IpCidr ==> crate::common::rule::rule_name(t) == "IP-CIDR"@,
        t is SrcIpCidr ==> crate::common::rule::rule_name(t) == "SRC-IP-CIDR"@,
        t is IpSuffix ==> crate::common::rule::rule_name(t) == "IP-SUFFIX"@,
        t is IpAsn ==> crate::common::rule::rule_name(t) == "IP-ASN"@,
        t is SrcPort ==> crate::common::rule::rule_name(t) == "SRC-PORT"@,
        t is DstPort ==> crate::common::rule::rule_name(t) == "DST-PORT"@,
        t is InPort ==> crate::common::rule::rule_name(t) == "IN-PORT"@,
        t is InName ==> crate::common::rule::rule_name(t) == "IN-NAME"@,
        t is InType ==> crate::common::rule::rule_name(t) == "IN-TYPE"@,
        t is InUser ==> crate::common::rule::rule_name(t) == "IN-USER"@,
        t is Dscp ==> crate::common::rule::rule_name(t) == "DSCP"@,
        t is ProcessName ==> crate::common::rule::rule_name(t) == "PROCESS-NAME"@,
        t is ProcessPath ==> crate::common::rule::rule_name(t) == "PROCESS-PATH"@,
        t is Network ==> crate::common::rule::rule_name(t) == "NETWORK"@,
        t is Uid ==> crate::common::rule::rule_name(t) == "UID"@,
        t is Match ==> crate::common::rule::rule_name(t) == "MATCH"@,
        t is RuleSet ==> crate::common::rule::rule_name(t) == "RULE-SET"@,
        t is SubRule ==> crate::common::rule::rule_name(t) == "SUB-RULE"@,
        t is And ==> crate::common::rule::rule_name(t) == "AND"@,
        t is Or ==> crate::common::rule::rule_name(t) == "OR"@,
        t is Not ==> crate::common::rule::rule_name(t) == "NOT"@,
{
}

/// The first subscription of a name is found exactly where there is one.
pub proof fn law_the_first_subscription_is_found(
    s: Seq<RawSubscription>,
    name: Seq<char>,
    from: int,
)
    requires
        0 <= from <= s.len(),
    ensures
        subscriptions::subscription_at(s, name, from) matches Some(i) ==> from <= i < s.len()
            && s[i].name@ == name && forall|j: int|
            from <= j < i ==> (#[trigger] s[j]).name@ != name,
        subscriptions::subscription_at(s, name, from) is None ==> forall|j: int|
            from <= j < s.len() ==> (#[trigger] s[j]).name@ != name,
    decreases s.len() - from,
{
    if from < s.len() {
        law_the_first_subscription_is_found(s, name, from + 1);
    }
}

/// Deleting leaves out the subscriptions of the name and keeps the others in order.
pub proof fn law_other_subscriptions_stay(
    s: Seq<RawSubscription>,
    x: RawSubscription,
    name: Seq<char>,
)
    ensures
        subscriptions::without_subscription(Seq::empty(), name).len() == 0,
        x.name@ == name ==> subscriptions::without_subscription(s.push(x), name)
            == subscriptions::without_subscription(s, name),
        x.name@ != name ==> subscriptions::without_subscription(s.push(x), name)
            == subscriptions::without_subscription(s, name).push(x),
{
    assert(s.push(x).drop_last() =~= s);
}

/// A subscription that is added stands behind the others, and what it brought takes the
/// place of the proxies, groups and rules; nothing else changes. A name that is taken is
/// refused and changes nothing.
pub proof fn law_subscriptions_are_added(
    before: RawConfig,
    s: RawSubscription,
    fetched: Fetched,
    after: RawConfig,
    r: Result<(), Reply>,
)
    requires
        subscriptions::added(before, s, fetched, after, r),
    ensures
        r is Ok <==> forall|i: int|
            0 <= i < subscriptions::subscriptions_in(before.subscriptions).len() ==> (
            #[trigger] subscriptions::subscriptions_in(before.subscriptions)[i]).name@ != s.name@,
        r is Ok ==> subscriptions::subscriptions_in(after.subscriptions)
            == subscriptions::subscriptions_in(before.subscriptions).push(s) && after.proxies
            == Some(fetched.proxies) && after.proxy_groups == Some(fetched.proxy_groups)
            && after.rules == Some(fetched.rules),
        after == (RawConfig {
            subscriptions: after.subscriptions,
            proxies: after.proxies,
            proxy_groups: after.proxy_groups,
            rules: after.rules,
            ..before
        }),
        r matches Err(e) ==> after == before && e.status == 409,
{
    law_the_first_subscription_is_found(
        subscriptions::subscriptions_in(before.subscriptions),
        s.name@,
        0,
    );
}

/// A subscription that is deleted takes the proxies, groups and rules with it; nothing
/// else changes. One that is not there changes nothing.
pub proof fn law_subscriptions_are_deleted(
    before: RawConfig,
    name: Seq<char>,
    after: RawConfig,
    r: Result<(), Reply>,
)
    requires
        subscriptions::deleted(before, name, after, r),
    ensures
        r is Err <==> forall|i: int|
            0 <= i < subscriptions::subscriptions_in(before.subscriptions).len() ==> (
            #[trigger] subscriptions::subscriptions_in(before.subscriptions)[i]).name@ != name,
        r is Ok ==> {
            &&& subscriptions::subscriptions_in(after.subscriptions)
                == subscriptions::without_subscription(
                subscriptions::subscriptions_in(before.subscriptions),
                name,
            )
            &&& after.proxies matches Some(p) && p@.len() == 0
            &&& after.proxy_groups matches Some(g) && g@.len() == 0
            &&& after.rules matches Some(l) && l@.len() == 0
        },
        after == (RawConfig {
            subscriptions: after.subscriptions,
            proxies: after.proxies,
            proxy_groups: after.proxy_groups,
            rules: after.rules,
            ..before
        }),
        r matches Err(e) ==> after == before && e.status == 404 && (before.subscriptions is Some
            ==> e@.message == Some("subscription not found"@)) && (before.subscriptions is None
            ==> e@.message == Some("no subscriptions"@)),
{
    law_the_first_subscription_is_found(
        subscriptions::subscriptions_in(before.subscriptions),
        name,
        0,
    );
}

/// A subscription that is refreshed is of now, and what it brought takes the place of the
/// proxies, groups and rules; the other subscriptions and all the rest stay.
pub proof fn law_subscriptions_are_refreshed(
    before: RawConfig,
    name: Seq<char>,
    fetched: Fetched,
    now: i64,
    after: RawConfig,
    i: int,
)
    requires
        subscriptions::refreshed(before, name, fetched, now, after),
        0 <= i < subscriptions::subscriptions_in(before.subscriptions).len(),
    ensures
        ({
            let b = subscriptions::subscriptions_in(before.subscriptions);
            let a = subscriptions::subscriptions_in(after.subscriptions);
            &&& a.len() == b.len()
            &&& a[i].name == b[i].name && a[i].url == b[i].url && a[i].interval == b[i].interval
            &&& b[i].name@ == name && (forall|j: int|
                0 <= j < i ==> (#[trigger] b[j]).name@ != name) ==> a[i].last_updated == Some(now)
            &&& b[i].name@ != name ==> a[i] == b[i]
        }),
        after.proxies == Some(fetched.proxies),
        after.proxy_groups == Some(fetched.proxy_groups),
        after.rules == Some(fetched.rules),
        after == (RawConfig {
            subscriptions: after.subscriptions,
            proxies: after.proxies,
            proxy_groups: after.proxy_groups,
            rules: after.rules,
            ..before
        }),
{
    let b = subscriptions::subscriptions_in(before.subscriptions);
    law_the_first_subscription_is_found(b, name, 0);
    if b[i].name@ == name && (forall|j: int| 0 <= j < i ==> (#[trigger] b[j]).name@ != name) {
        let k = subscriptions::subscription_at(b, name, 0)->0;
        if k < i {
            assert(b[k].name@ != name);
        }
    }
}

/// What is told of a subscription: what is configured of it, and how much there is now.
pub proof fn law_what_is_told_of_subscriptions(
    raw: &RawConfig,
    out: Vec<SubscriptionInfo>,
    i: int,
)
    requires
        call_ensures(subscriptions::get_subscriptions, (raw,), out),
        0 <= i < subscriptions::subscriptions_in(raw.subscriptions).len(),
    ensures
        out@.len() == subscriptions::subscriptions_in(raw.subscriptions).len(),
        ({
            let s = subscriptions::subscriptions_in(raw.subscriptions)[i];
            &&& out@[i].name@ == s.name@
            &&& out@[i].url@ == s.url@
            &&& out@[i].interval == s.interval
            &&& out@[i].last_updated == s.last_updated
        }),
        raw.proxies matches Some(p) ==> out@[i].proxy_count == p@.len(),
        raw.proxies is None ==> out@[i].proxy_count == 0,
        raw.proxy_groups matches Some(g) ==> out@[i].group_count == g@.len(),
        raw.proxy_groups is None ==> out@[i].group_count == 0,
        raw.rules matches Some(l) ==> out@[i].rule_count == l@.len(),
        raw.rules is None ==> out@[i].rule_count == 0,
{
    assert(subscriptions::told_of(
        out@[i],
        subscriptions::subscriptions_in(raw.subscriptions)[i],
        *raw,
    ));
}

/// A subscription is fetched from where the first of its name is.
pub proof fn law_where_a_subscription_is(
    given: &Option<Vec<RawSubscription>>,
    name: &str,
    r: Result<String, Reply>,
)
    requires
        call_ensures(subscriptions::subscription_url, (given, name), r),
    ensures
        r matches Ok(u) ==> exists|i: int|
            0 <= i < subscriptions::subscriptions_in(*given).len() && (
            #[trigger] subscriptions::subscriptions_in(*given)[i]).name@ == name@
                && subscriptions::subscriptions_in(*given)[i].url@ == u@ && forall|j: int|
                0 <= j < i ==> (#[trigger] subscriptions::subscriptions_in(*given)[j]).name@
                    != name@,
        r matches Err(e) ==> e.status == 404 && forall|i: int|
            0 <= i < subscriptions::subscriptions_in(*given).len() ==> (
            #[trigger] subscriptions::subscriptions_in(*given)[i]).name@ != name@,
{
    law_the_first_subscription_is_found(subscriptions::subscriptions_in(*given), name@, 0);
}

/// What is told of a proxy is its state; a delay of nothing is not told.
pub proof fn law_what_is_told_of_proxies(p: ProxyState)
    ensures
        ({
            let i = proxies::proxy_told(p);
            &&& i.name == p.name && i.proxy_type == p.proxy_type && i.alive == p.alive
            &&& i.history == p.history && i.udp == p.udp
            &&& i.all == p.members && i.now == p.current && i.fixed == p.fixed
            &&& i.test_url == p.test_url && i.expected_status == p.expected_status
            &&& p.last_delay == 0 ==> i.delay is None
            &&& p.last_delay != 0 ==> i.delay == Some(p.last_delay)
        }),
{
}

/// The proxies that have members are the groups, in the order they stand.
pub proof fn law_groups_have_members(p: Seq<ProxyState>, x: ProxyState)
    ensures
        proxies::groups_told(Seq::empty()).len() == 0,
        x.members is Some ==> proxies::groups_told(p.push(x)) == proxies::groups_told(p).push(
            proxies::proxy_told(x),
        ),
        x.members is None ==> proxies::groups_told(p.push(x)) == proxies::groups_told(p),
{
    assert(p.push(x).drop_last() =~= p);
}

/// A group is told where there is one of the name; a proxy without members is none.
pub proof fn law_which_group_is_told(found: Option<ProxyState>, r: Result<ProxyInfo, Reply>)
    requires
        call_ensures(proxies::get_group, (found,), r),
    ensures
        r is Ok <==> (found matches Some(p) && p.members is Some),
        r matches Ok(i) ==> i == proxies::proxy_told(found->0),
        r matches Err(e) ==> e.status == 404,
{
}

/// How changes of a choice are answered.
pub proof fn law_how_choices_are_answered(
    s: Selectable,
    set: Result<(), String>,
    chosen: bool,
    may: Result<(), Reply>,
    updated: Reply,
    selected: Reply,
    unfixed: Reply,
)
    requires
        call_ensures(proxies::may_select, (s,), may),
        call_ensures(proxies::update_proxy, (s, set), updated),
        call_ensures(proxies::select_proxy_in_group, (s, chosen), selected),
        call_ensures(proxies::unfix_proxy, (s,), unfixed),
    ensures
        may is Ok <==> s is Choice,
        updated.status == 204 <==> s is Choice && set is Ok,
        selected.status == 204 <==> s is Choice && chosen,
        unfixed.status == 204 <==> (s matches Selectable::Choice { can_unfix } && can_unfix),
        s is Missing ==> (may matches Err(e) && e.status == 404) && updated.status == 404
            && selected.status == 404 && unfixed.status == 404,
        s is NoChoice ==> (may matches Err(e) && e.status == 400) && updated.status == 400
            && selected.status == 400 && unfixed.status == 400,
        s is Choice ==> (updated.status == 204 || updated.status == 400) && (selected.status == 204
            || selected.status == 400) && (unfixed.status == 204 || unfixed.status == 400),
        selected.message is None,
        s is Choice && set is Err ==> updated@.message == Some(
            "Selector update error: "@ + set->Err_0@,
        ),
{
}

/// The first proxy of a name is told of those that a provider holds.
pub proof fn law_which_proxy_of_a_provider_is_told(
    provider: Option<Vec<ProxyState>>,
    name: &str,
    r: Result<ProxyInfo, Reply>,
)
    requires
        call_ensures(proxies::get_provider_proxy, (provider, name), r),
    ensures
        provider is None ==> r is Err,
        r matches Err(e) ==> e.status == 404,
        provider matches Some(p) ==> (r is Err <==> forall|i: int|
            0 <= i < p@.len() ==> (#[trigger] p@[i]).name@ != name@),
        provider matches Some(p) ==> (r matches Ok(x) ==> exists|i: int|
            0 <= i < p@.len() && (#[trigger] p@[i]).name@ == name@ && x == proxies::proxy_told(
                p@[i],
            ) && forall|j: int| 0 <= j < i ==> (#[trigger] p@[j]).name@ != name@),
{
    if let Some(p) = provider {
        lemma_first_proxy(p@, name@, 0);
    }
}

proof fn lemma_first_proxy(p: Seq<ProxyState>, name: Seq<char>, from: int)
    requires
        0 <= from <= p.len(),
    ensures
        proxies::proxy_at(p, name, from) matches Some(i) ==> from <= i < p.len() && p[i].name@
            == name && forall|j: int| from <= j < i ==> (#[trigger] p[j]).name@ != name,
        proxies::proxy_at(p, name, from) is None ==> forall|j: int|
            from <= j < p.len() ==> (#[trigger] p[j]).name@ != name,
    decreases p.len() - from,
{
    if from < p.len() {
        lemma_first_proxy(p, name, from + 1);
    }
}

/// What is told of a provider of proxies.
pub proof fn law_what_is_told_of_providers(
    name: &str,
    vehicle: &str,
    health: &Option<ProviderHealth>,
    at: u64,
    i: ProviderInfo,
)
    requires
        call_ensures(providers::provider_to_info, (name, vehicle, health, at), i),
    ensures
        i.name@ == name@,
        i.provider_type@ == "Proxy"@,
        i.vehicle_type@ == vehicle@,
        health matches Some(h) ==> i.test_url@ == h.url@ && i.expected_status@
            == h.expected_status@,
        health is None ==> i.test_url@.len() == 0 && i.expected_status@.len() == 0,
        at == 0 ==> i.updated_at is None,
{
}

/// How refreshes are answered.
pub proof fn law_how_refreshes_are_answered(
    known: bool,
    proxies_done: Result<(), String>,
    rules_done: bool,
    a: Reply,
    b: Reply,
)
    requires
        call_ensures(providers::refresh_provider, (known, proxies_done), a),
        call_ensures(providers::refresh_rule_provider, (known, rules_done), b),
    ensures
        !known ==> a.status == 404 && b.status == 404,
        a.status == 204 <==> known && proxies_done is Ok,
        b.status == 204 <==> known && rules_done,
        known && proxies_done is Err ==> a.status == 503 && a@.message == Some(
            proxies_done->Err_0@,
        ),
        known && !rules_done ==> b.status == 503,
{
}

/// A provider is checked at the address and for as long as is asked, and otherwise as it
/// is configured, for no less than a millisecond.
pub proof fn law_how_providers_are_checked(
    known: bool,
    health: &Option<ProviderHealth>,
    url: Option<String>,
    timeout: Option<String>,
    r: HealthStep,
)
    requires
        call_ensures(providers::provider_healthcheck, (known, health, url, timeout), r),
    ensures
        r is Check <==> known && health is Some && (url matches Some(u) ==> text::trimmed(
            u@,
        ).len() > 0) && (timeout matches Some(t) ==> delay::timeout_set(t@) is Some),
        r matches HealthStep::Reply(e) ==> (if !known {
            e.status == 404
        } else if health is None {
            e.status == 204
        } else {
            e.status == 400
        }),
        r matches HealthStep::Check(p) ==> {
            let h = health->0;
            &&& url matches Some(u) ==> p.url@ == u@
            &&& url is None ==> p.url@ == h.url@
            &&& timeout matches Some(t) ==> delay::timeout_set(t@) == Some(p.timeout as nat)
            &&& timeout is None && h.timeout > 0 ==> p.timeout == h.timeout
            &&& timeout is None && h.timeout == 0 ==> p.timeout == 1
            &&& h.expected_status@.len() == 0 ==> p.expected is None
            &&& h.expected_status@.len() > 0 ==> (p.expected matches Some(x) && x@
                == h.expected_status@)
        },
{
}

/// What is told of a provider of rules: that it is one, the format that is configured or
/// the usual one, how many rules it holds, and where it has them from.
pub proof fn law_what_is_told_of_providers_of_rules(
    i: RuleProviderInfo,
    p: ProviderView,
    count: usize,
    format: Option<Seq<char>>,
)
    requires
        providers::rules_told(i, p, count, format),
    ensures
        i.name@ == p.name,
        i.provider_type@ == "Rule"@,
        i.behavior == p.behavior,
        i.rule_count == count,
        format matches Some(f) ==> i.format@ == f,
        format is None ==> i.format@ == "yaml"@,
        p.provider_type is Http ==> i.vehicle_type@ == "HTTP"@,
        p.provider_type is File ==> i.vehicle_type@ == "File"@,
        p.provider_type is Inline ==> i.vehicle_type@ == "Inline"@,
        p.updated_at == 0 ==> i.updated_at@.len() == 0,
{
}

/// The format of a provider is that of the first section of its name.
pub proof fn law_the_format_of_the_first_section(
    list: Seq<(String, RawRuleProvider)>,
    name: Seq<char>,
    i: int,
)
    requires
        0 <= i < list.len(),
        list[i].0@ == name,
        forall|j: int| 0 <= j < i ==> (#[trigger] list[j]).0@ != name,
    ensures
        providers::format_in(list, name, 0) == text::opt_view(list[i].1.format),
{
    lemma_format_in(list, name, i, 0);
}

proof fn lemma_format_in(
    list: Seq<(String, RawRuleProvider)>,
    name: Seq<char>,
    i: int,
    from: int,
)
    requires
        0 <= from <= i < list.len(),
        list[i].0@ == name,
        forall|j: int| from <= j < i ==> (#[trigger] list[j]).0@ != name,
    ensures
        providers::format_in(list, name, from) == text::opt_view(list[i].1.format),
    decreases i - from,
{
    if from < i {
        assert(list[from].0@ != name);
        lemma_format_in(list, name, i, from + 1);
    }
}

/// A provider without a section has no format.
pub proof fn law_no_section_no_format(
    list: Seq<(String, RawRuleProvider)>,
    name: Seq<char>,
    from: int,
)
    requires
        0 <= from <= list.len(),
        forall|j: int| from <= j < list.len() ==> (#[trigger] list[j]).0@ != name,
    ensures
        providers::format_in(list, name, from) is None,
    decreases list.len() - from,
{
    if from < list.len() {
        law_no_section_no_format(list, name, from + 1);
    }
}

/// What is told of a listener is what is configured of it.
pub proof fn law_what_is_told_of_listeners(
    list: &Vec<NamedListener>,
    out: Vec<ListenerInfo>,
    i: int,
)
    requires
        call_ensures(providers::get_listeners, (list,), out),
        0 <= i < list@.len(),
    ensures
        out@.len() == list@.len(),
        out@[i].name@ == list@[i].name@,
        out@[i].port == list@[i].port,
        out@[i].listen@ == list@[i].listen@,
        list@[i].listener_type is Mixed ==> out@[i].listener_type@ == "mixed"@,
        list@[i].listener_type is Http ==> out@[i].listener_type@ == "http"@,
        list@[i].listener_type is Socks5 ==> out@[i].listener_type@ == "socks5"@,
        list@[i].listener_type is TProxy ==> out@[i].listener_type@ == "tproxy"@,
{
    assert(providers::listener_told(out@[i], list@[i]));
}

} // verus!
