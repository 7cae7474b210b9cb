//! Changes to the list of rules.

use crate::api::reply;
use crate::api::reply::Reply;
use crate::common::rule;
use crate::common::rule::RuleType;
use crate::text;
use vstd::prelude::*;

verus! {

/// The rules of a configuration, which may have none.
pub open spec fn rules_in(o: Option<Vec<String>>) -> Seq<Seq<char>> {
    match o {
        Some(v) => text::views(v@),
        None => Seq::empty(),
    }
}

/// Whether a result is a list of rules, or the answer that a place does not exist.
pub open spec fn changed(
    r: Result<Vec<String>, Reply>,
    exists_there: bool,
    rules: Seq<Seq<char>>,
) -> bool {
    match r {
        Ok(v) => exists_there && text::views(v@) == rules,
        Err(e) => !exists_there && e@ == reply::told(400, "index out of range"@),
    }
}

fn take(o: Option<Vec<String>>) -> (v: Vec<String>)
    ensures
        text::views(v@) == rules_in(o),
{
    match o {
        Some(v) => v,
        None => text::no_strings(),
    }
}

fn out_of_range() -> (e: Reply)
    ensures
        e@ == reply::told(400, "index out of range"@),
{
    reply::msg_err(reply::BAD_REQUEST, "index out of range")
}

/// Puts a rule in the place of another.
pub fn update_rule_at_index(rules: Option<Vec<String>>, index: usize, rule: String) -> (r: Result<
    Vec<String>,
    Reply,
>)
    ensures
        changed(
            r,
            index < rules_in(rules).len(),
            rules_in(rules).update(index as int, rule@),
        ),
{
    let mut v = take(rules);
    let ghost was = text::views(v@);
    if index >= v.len() {
        return Err(out_of_range());
    }
    let ghost t = rule@;
    v.set(index, rule);
    assert(text::views(v@) =~= was.update(index as int, t));
    Ok(v)
}

/// Takes a rule out.
pub fn delete_rule(rules: Option<Vec<String>>, index: usize) -> (r: Result<Vec<String>, Reply>)
    ensures
        changed(r, index < rules_in(rules).len(), rules_in(rules).remove(index as int)),
{
    let mut v = take(rules);
    let ghost was = text::views(v@);
    if index >= v.len() {
        return Err(out_of_range());
    }
    let _gone = v.remove(index);
    assert(text::views(v@) =~= was.remove(index as int));
    Ok(v)
}

/// The rules with one moved to another place.
pub open spec fn moved(rules: Seq<Seq<char>>, from: int, to: int) -> Seq<Seq<char>> {
    rules.remove(from).insert(to, rules[from])
}

/// Moves a rule to another place.
pub fn reorder_rules(rules: Option<Vec<String>>, from: usize, to: usize) -> (r: Result<
    Vec<String>,
    Reply,
>)
    ensures
        changed(
            r,
            from < rules_in(rules).len() && to < rules_in(rules).len(),
            moved(rules_in(rules), from as int, to as int),
        ),
{
    let mut v = take(rules);
    let ghost was = text::views(v@);
    if from >= v.len() || to >= v.len() {
        return Err(out_of_range());
    }
    let rule = v.remove(from);
    let ghost t = rule@;
    assert(t == was[from as int]);
    assert(text::views(v@) =~= was.remove(from as int));
    v.insert(to, rule);
    assert(text::views(v@) =~= was.remove(from as int).insert(to as int, t));
    Ok(v)
}

/// Moving a rule and moving it back leaves the rules as they were.
pub proof fn law_moving_back_undoes(rules: Seq<Seq<char>>, from: int, to: int)
    requires
        0 <= from < rules.len(),
        0 <= to < rules.len(),
    ensures
        moved(moved(rules, from, to), to, from) == rules,
{
    let m = moved(rules, from, to);
    assert(m[to] == rules[from]);
    assert(m.remove(to) =~= rules.remove(from));
    assert(rules.remove(from).insert(from, rules[from]) =~= rules);
}

/// Moving a rule keeps every rule.
pub proof fn law_moving_keeps_rules(rules: Seq<Seq<char>>, from: int, to: int)
    requires
        0 <= from < rules.len(),
        0 <= to < rules.len(),
    ensures
        moved(rules, from, to).len() == rules.len(),
        moved(rules, from, to).to_multiset() == rules.to_multiset(),
{
    let rest = rules.remove(from);
    let x = rules[from];
    vstd::seq_lib::to_multiset_remove(rules, from);
    assert(rest.insert(to, x).to_multiset() =~= rest.to_multiset().insert(x)) by {
        vstd::seq_lib::to_multiset_insert(rest, to, x);
    }
    assert(rules.to_multiset().remove(x).insert(x) =~= rules.to_multiset()) by {
        rules.to_multiset_ensures();
        assert(rules.to_multiset().count(x) > 0) by {
            assert(rules.contains(rules[from]));
        }
    }
}

/// The group that a rule sends connections to: what follows its last comma.
pub open spec fn rule_target(rule: Seq<char>) -> Seq<char> {
    text::trimmed(text::parts(rule, ',').last())
}

/// The rules that do not send connections to a group.
pub open spec fn without_target(rules: Seq<Seq<char>>, name: Seq<char>) -> Seq<Seq<char>>
    decreases rules.len(),
{
    if rules.len() == 0 {
        Seq::empty()
    } else {
        let r = without_target(rules.drop_last(), name);
        if rule_target(rules.last()) == name {
            r
        } else {
            r.push(rules.last())
        }
    }
}

/// Takes out the rules that send connections to a group.
pub fn drop_target(rules: &Vec<String>, name: &str) -> (out: Vec<String>)
    ensures
        text::views(out@) == without_target(text::views(rules@), name@),
{
    let ghost all = text::views(rules@);
    let mut out = text::no_strings();
    let mut i: usize = 0;
    assert(all.take(0) =~= Seq::empty());
    while i < rules.len()
        invariant
            i <= rules@.len(),
            all == text::views(rules@),
            text::views(out@) == without_target(all.take(i as int), name@),
        decreases rules@.len() - i,
    {
        assert(all.take(i + 1).drop_last() =~= all.take(i as int));
        assert(all.take(i + 1).last() == rules@[i as int]@);
        let p = text::split(rules[i].as_str(), ',');
        assert(text::views(p@).last() == p@.last()@);
        let t = text::trim(p[p.len() - 1].as_str());
        if !text::same(t.as_str(), name) {
            text::push_string(&mut out, rules[i].clone());
        }
        i += 1;
    }
    assert(all.take(i as int) =~= all);
    out
}

/// No rule that is left sends connections to the group.
pub proof fn law_no_rule_is_left_behind(rules: Seq<Seq<char>>, name: Seq<char>, i: int)
    requires
        0 <= i < without_target(rules, name).len(),
    ensures
        rule_target(without_target(rules, name)[i]) != name,
    decreases rules.len(),
{
    let f = rules.drop_last();
    if i < without_target(f, name).len() {
        law_no_rule_is_left_behind(f, name, i);
    }
}

/// A rule as it runs.
#[derive(Clone, Debug)]
pub struct RunningRule {
    pub rule_type: RuleType,
    pub payload: String,
    pub adapter: String,
}

/// What is told of a rule.
#[derive(Clone, Debug)]
pub struct RuleInfo {
    pub index: usize,
    pub rule_type: String,
    pub payload: String,
    pub proxy: String,
    pub size: i64,
}

/// Whether what is told of a rule is so.
pub open spec fn rule_told(i: RuleInfo, at: int, r: RunningRule) -> bool {
    &&& i.index == at
    &&& i.rule_type@ == rule::rule_name(r.rule_type)
    &&& i.payload@ == r.payload@
    &&& i.proxy@ == r.adapter@
    &&& i.size == -1
}

/// Tells of every rule.
pub fn get_rules(rules: &Vec<RunningRule>) -> (out: Vec<RuleInfo>)
    ensures
        out@.len() == rules@.len(),
        forall|i: int| 0 <= i < out@.len() ==> rule_told(#[trigger] out@[i], i, rules@[i]),
{
    let mut out: Vec<RuleInfo> = Vec::new();
    let mut i: usize = 0;
    while i < rules.len()
        invariant
            i <= rules@.len(),
            out@.len() == i,
            forall|j: int| 0 <= j < i ==> rule_told(#[trigger] out@[j], j, rules@[j]),
        decreases rules@.len() - i,
    {
        out.push(
            RuleInfo {
                index: i,
                rule_type: rules[i].rule_type.as_str().to_owned(),
                payload: rules[i].payload.clone(),
                proxy: rules[i].adapter.clone(),
                size: -1,
            },
        );
        i += 1;
    }
    out
}

} // verus!
