//! Measuring how long proxies take.

use crate::api::reply;
use crate::api::reply::Reply;
use crate::config::proxy_registry;
use crate::number;
use crate::text;
use vstd::prelude::*;

verus! {

/// The milliseconds that a text sets: a number that is not zero.
pub open spec fn timeout_set(t: Seq<char>) -> Option<nat> {
    match number::unsigned(text::trimmed(t), u16::MAX as nat) {
        Some(n) => if n == 0 {
            None
        } else {
            Some(n)
        },
        None => None,
    }
}

/// How long a measurement may take, in milliseconds: it needs an address, and a
/// number that is not zero.
pub open spec fn budget(url: Option<Seq<char>>, timeout: Option<Seq<char>>) -> Option<nat> {
    match (url, timeout) {
        (Some(u), Some(t)) => if text::trimmed(u).len() == 0 {
            None
        } else {
            timeout_set(t)
        },
        _ => None,
    }
}

/// Whether a text is an address at all.
pub fn is_address(u: &str) -> (r: bool)
    ensures
        r == (text::trimmed(u@).len() > 0),
{
    let u = text::trim(u);
    text::chars_of(u.as_str()).len() > 0
}

/// Reads how many milliseconds a text sets.
pub fn parse_timeout(t: &str) -> (r: Option<u64>)
    ensures
        (match (r, timeout_set(t@)) {
            (Some(n), Some(m)) => n == m,
            (None, None) => true,
            _ => false,
        }),
{
    match number::parse_u16(text::trim(t).as_str()) {
        Some(n) => if n != 0 {
            Some(n as u64)
        } else {
            None
        },
        None => None,
    }
}

/// Checks the parameters of a measurement, and tells how many milliseconds it may
/// take.
pub fn parse_delay_params(url: &Option<String>, timeout: &Option<String>) -> (r: Result<u64, Reply>)
    ensures
        (match (r, budget(text::opt_view(*url), text::opt_view(*timeout))) {
            (Ok(n), Some(m)) => n == m,
            (Err(e), None) => e@ == reply::told(400, "Body invalid"@),
            _ => false,
        }),
{
    if let (Some(u), Some(t)) = (url, timeout) {
        if is_address(u.as_str()) {
            if let Some(n) = parse_timeout(t.as_str()) {
                return Ok(n);
            }
        }
    }
    Err(reply::msg_err(reply::BAD_REQUEST, "Body invalid"))
}

/// How a measurement ended.
#[derive(Clone, Copy, Debug, PartialEq, Eq, Structural)]
pub enum Probe {
    /// After so many milliseconds.
    Delay(u16),
    Timeout,
    Transport,
}

/// The answer to a request to measure a proxy before it is done: its parameters must
/// be right, and the proxy known.
pub fn proxy_delay_budget(url: &Option<String>, timeout: &Option<String>, known: bool) -> (r: Result<
    u64,
    Reply,
>)
    ensures
        (match (r, budget(text::opt_view(*url), text::opt_view(*timeout))) {
            (Ok(n), Some(m)) => known && n == m,
            (Err(e), None) => e@ == reply::told(400, "Body invalid"@),
            (Err(e), Some(_)) => !known && e@ == reply::told(404, "resource not found"@),
            _ => false,
        }),
{
    let n = parse_delay_params(url, timeout)?;
    if !known {
        return Err(reply::msg_err(reply::NOT_FOUND, "resource not found"));
    }
    Ok(n)
}

/// The same for a proxy of a provider.
pub fn provider_proxy_budget(
    url: &Option<String>,
    timeout: &Option<String>,
    provider_known: bool,
    proxy_known: bool,
) -> (r: Result<u64, Reply>)
    ensures
        (match (r, budget(text::opt_view(*url), text::opt_view(*timeout))) {
            (Ok(n), Some(m)) => provider_known && proxy_known && n == m,
            (Err(e), None) => e@ == reply::told(400, "Body invalid"@),
            (Err(e), Some(_)) => !(provider_known && proxy_known) && e@ == reply::told(
                404,
                "Resource not found"@,
            ),
            _ => false,
        }),
{
    let n = parse_delay_params(url, timeout)?;
    if !provider_known || !proxy_known {
        return Err(reply::msg_err(reply::NOT_FOUND, "Resource not found"));
    }
    Ok(n)
}

/// The answer to a measurement that was done.
pub fn delay_reply(p: Probe) -> (r: Result<u16, Reply>)
    ensures
        (match p {
            Probe::Delay(d) => r == Ok::<u16, Reply>(d),
            Probe::Timeout => r matches Err(e) && e@ == reply::told(504, "Timeout"@),
            Probe::Transport => r matches Err(e) && e@ == reply::told(
                503,
                "An error occurred in the delay test"@,
            ),
        }),
{
    match p {
        Probe::Delay(d) => Ok(d),
        Probe::Timeout => Err(reply::msg_err(reply::GATEWAY_TIMEOUT, "Timeout")),
        Probe::Transport => Err(
            reply::msg_err(reply::SERVICE_UNAVAILABLE, "An error occurred in the delay test"),
        ),
    }
}

/// What is known of a group whose members are to be measured.
#[derive(Clone, Debug)]
pub struct GroupState {
    pub members: Vec<String>,
    /// Whether the user's choice of a member can be lifted.
    pub can_unfix: bool,
}

/// How the members of a group are measured.
#[derive(Clone, Debug)]
pub struct GroupPlan {
    pub timeout: u64,
    /// Whether the user's choice is lifted first.
    pub unfix: bool,
    pub members: Vec<String>,
}

/// The names that are known, in their order.
pub open spec fn known_of(names: Seq<Seq<char>>, known: Seq<Seq<char>>) -> Seq<Seq<char>>
    decreases names.len(),
{
    if names.len() == 0 {
        Seq::empty()
    } else {
        let r = known_of(names.drop_last(), known);
        if known.contains(names.last()) {
            r.push(names.last())
        } else {
            r
        }
    }
}

/// Plans the measurement of a group. What is not a group is not found; a request
/// that is not right changes nothing.
pub fn get_group_delay(
    group: &Option<GroupState>,
    known: &Vec<String>,
    url: &Option<String>,
    timeout: &Option<String>,
) -> (r: Result<GroupPlan, Reply>)
    ensures
        (match (*group, budget(text::opt_view(*url), text::opt_view(*timeout))) {
            (None, _) => r matches Err(e) && e@ == reply::told(404, "resource not found"@),
            (Some(_), None) => r matches Err(e) && e@ == reply::told(400, "Body invalid"@),
            (Some(g), Some(n)) => {
                &&& r is Ok
                &&& r->Ok_0.timeout == n
                &&& r->Ok_0.unfix == g.can_unfix
                &&& text::views(r->Ok_0.members@) == known_of(
                    text::views(g.members@),
                    text::views(known@),
                )
            },
        }),
{
    let g = match group {
        Some(g) => g,
        None => return Err(reply::msg_err(reply::NOT_FOUND, "resource not found")),
    };
    let budgeted = match parse_delay_params(url, timeout) {
        Ok(n) => n,
        Err(e) => return Err(e),
    };
    let ghost all = text::views(g.members@);
    let mut members = text::no_strings();
    let mut i: usize = 0;
    assert(all.take(0) =~= Seq::empty());
    while i < g.members.len()
        invariant
            i <= g.members@.len(),
            all == text::views(g.members@),
            text::views(members@) == known_of(all.take(i as int), text::views(known@)),
        decreases g.members@.len() - i,
    {
        assert(all.take(i + 1).drop_last() =~= all.take(i as int));
        assert(all.take(i + 1).last() == g.members@[i as int]@);
        if text::has_string(known, g.members[i].as_str()) {
            text::push_string(&mut members, g.members[i].clone());
        }
        i += 1;
    }
    assert(all.take(i as int) =~= all);
    Ok(GroupPlan { timeout: budgeted, unfix: g.can_unfix, members })
}

/// How the measurement of a member ended.
#[derive(Clone, Debug)]
pub struct Measured {
    pub name: String,
    /// What it took; zero where it failed.
    pub delay: u16,
    pub timed_out: bool,
}

/// What a member of a group takes.
#[derive(Clone, Debug)]
pub struct Delay {
    pub name: String,
    pub delay: u16,
}

/// Delays, each with its name as a text.
pub open spec fn delays_of(v: Seq<Delay>) -> Seq<(Seq<char>, u16)> {
    v.map_values(|d: Delay| (d.name@, d.delay))
}

/// A list in the order of its names, with a delay put in. A name stands in it once.
pub open spec fn put(s: Seq<(Seq<char>, u16)>, name: Seq<char>, delay: u16) -> Seq<
    (Seq<char>, u16),
>
    decreases s.len(),
{
    if s.len() == 0 {
        seq![(name, delay)]
    } else if s.last().0 == name {
        s.drop_last().push((name, delay))
    } else if proxy_registry::before(name, s.last().0) {
        put(s.drop_last(), name, delay).push(s.last())
    } else {
        s.push((name, delay))
    }
}

/// The delays of all members, in the order of their names.
pub open spec fn delay_list(m: Seq<Measured>) -> Seq<(Seq<char>, u16)>
    decreases m.len(),
{
    if m.len() == 0 {
        Seq::empty()
    } else {
        put(delay_list(m.drop_last()), m.last().name@, m.last().delay)
    }
}

fn put_delay(v: &mut Vec<Delay>, name: &str, delay: u16)
    ensures
        delays_of(final(v)@) == put(delays_of(old(v)@), name@, delay),
{
    let ghost was = delays_of(v@);
    let mut n: usize = v.len();
    assert(was.take(n as int) =~= was);
    assert(put(was, name@, delay) =~= put(was.take(n as int), name@, delay) + was.skip(n as int));
    while n > 0 && !text::same(v[n - 1].name.as_str(), name) && proxy_registry::comes_before(
        name,
        v[n - 1].name.as_str(),
    )
        invariant
            was == delays_of(v@),
            n <= v@.len(),
            put(was, name@, delay) == put(was.take(n as int), name@, delay) + was.skip(n as int),
        decreases n,
    {
        let ghost t = was.take(n as int);
        assert(t.drop_last() =~= was.take(n - 1));
        assert(t.last() == (v@[n - 1].name@, v@[n - 1].delay));
        assert(put(was.take(n - 1), name@, delay).push(was[n - 1]) + was.skip(n as int) =~= put(
            was.take(n - 1),
            name@,
            delay,
        ) + was.skip(n - 1));
        n -= 1;
    }
    let ghost t = was.take(n as int);
    let d = Delay { name: name.to_owned(), delay };
    if n > 0 && text::same(v[n - 1].name.as_str(), name) {
        assert(t.last() == (v@[n - 1].name@, v@[n - 1].delay));
        v.set(n - 1, d);
        assert(delays_of(v@) =~= t.drop_last().push((name@, delay)) + was.skip(n as int));
    } else {
        assert(n > 0 ==> t.last() == (v@[n - 1].name@, v@[n - 1].delay));
        v.insert(n, d);
        assert(delays_of(v@) =~= t.push((name@, delay)) + was.skip(n as int));
        assert(n == 0 ==> t.push((name@, delay)) =~= seq![(name@, delay)]);
    }
}

/// Whether a member of a group took too long.
pub open spec fn any_timed_out(m: Seq<Measured>) -> bool {
    exists|i: int| 0 <= i < m.len() && (#[trigger] m[i]).timed_out
}

/// The answer to the measurement of a group. It timed out as a whole, where `measured`
/// is none, or where a member did.
pub fn group_delay_reply(measured: Option<Vec<Measured>>) -> (r: Result<Vec<Delay>, Reply>)
    ensures
        (match measured {
            Some(m) => if any_timed_out(m@) {
                r matches Err(e) && e@ == reply::told(504, "Timeout"@)
            } else {
                r matches Ok(v) && delays_of(v@) == delay_list(m@)
            },
            None => r matches Err(e) && e@ == reply::told(504, "Timeout"@),
        }),
{
    let m = match &measured {
        Some(m) => m,
        None => return Err(reply::msg_err(reply::GATEWAY_TIMEOUT, "Timeout")),
    };
    let mut out: Vec<Delay> = Vec::new();
    let mut i: usize = 0;
    assert(m@.take(0) =~= Seq::empty());
    assert(delays_of(out@) =~= Seq::empty());
    while i < m.len()
        invariant
            i <= m@.len(),
            measured == Some(*m),
            forall|j: int| 0 <= j < i ==> !(#[trigger] m@[j]).timed_out,
            delays_of(out@) == delay_list(m@.take(i as int)),
        decreases m@.len() - i,
    {
        assert(m@.take(i + 1).drop_last() =~= m@.take(i as int));
        assert(m@.take(i + 1).last() == m@[i as int]);
        if m[i].timed_out {
            assert(m@[i as int].timed_out);
            return Err(reply::msg_err(reply::GATEWAY_TIMEOUT, "Timeout"));
        }
        put_delay(&mut out, m[i].name.as_str(), m[i].delay);
        i += 1;
    }
    assert(m@.take(i as int) =~= m@);
    Ok(out)
}

/// Whether names stand in their order, each once.
pub open spec fn in_order(s: Seq<(Seq<char>, u16)>) -> bool {
    forall|i: int, j: int|
        0 <= i < j < s.len() ==> proxy_registry::before((#[trigger] s[i]).0, (#[trigger] s[j]).0)
}

proof fn lemma_put(s: Seq<(Seq<char>, u16)>, name: Seq<char>, delay: u16)
    requires
        in_order(s),
    ensures
        in_order(put(s, name, delay)),
        forall|i: int|
            0 <= i < put(s, name, delay).len() ==> (#[trigger] put(s, name, delay)[i] == (
                name,
                delay,
            ) || s.contains(put(s, name, delay)[i])),
    decreases s.len(),
{
    let p = put(s, name, delay);
    if s.len() > 0 {
        let f = s.drop_last();
        let l = s.last();
        assert(in_order(f));
        assert forall|x: (Seq<char>, u16)| f.contains(x) implies s.contains(x) by {
            let k = choose|k: int| 0 <= k < f.len() && f[k] == x;
            assert(s[k] == x);
        }
        assert forall|i: int| 0 <= i < f.len() implies proxy_registry::before((#[trigger] f[i]).0, l.0) by {
            assert(s[i] == f[i] && s[s.len() - 1] == l);
        }
        assert(s[s.len() - 1] == l && s.contains(l));
        if l.0 == name {
            assert forall|i: int| 0 <= i < p.len() implies (#[trigger] p[i] == (name, delay)
                || s.contains(p[i])) by {
                if i < f.len() {
                    assert(p[i] == s[i]);
                }
            }
        } else if proxy_registry::before(name, l.0) {
            lemma_put(f, name, delay);
            let q = put(f, name, delay);
            assert forall|i: int| 0 <= i < q.len() implies proxy_registry::before(
                (#[trigger] q[i]).0,
                l.0,
            ) by {
                if q[i] != (name, delay) {
                    let k = choose|k: int| 0 <= k < f.len() && f[k] == q[i];
                    assert(proxy_registry::before(f[k].0, l.0));
                }
            }
            assert forall|i: int| 0 <= i < p.len() implies (#[trigger] p[i] == (name, delay)
                || s.contains(p[i])) by {
                if i < q.len() {
                    assert(p[i] == q[i]);
                }
            }
        } else {
            lemma_total(name, l.0);
            assert forall|i: int| 0 <= i < s.len() implies proxy_registry::before(
                (#[trigger] s[i]).0,
                name,
            ) by {
                if i < f.len() {
                    assert(proxy_registry::before(f[i].0, l.0));
                    lemma_transitive(s[i].0, l.0, name);
                }
            }
            assert forall|i: int| 0 <= i < p.len() implies (#[trigger] p[i] == (name, delay)
                || s.contains(p[i])) by {
                if i < s.len() {
                    assert(p[i] == s[i]);
                }
            }
        }
    }
}

proof fn lemma_total(a: Seq<char>, b: Seq<char>)
    requires
        a != b,
    ensures
        proxy_registry::before(a, b) || proxy_registry::before(b, a),
    decreases a.len(),
{
    if a.len() > 0 && b.len() > 0 && a[0] == b[0] {
        let x = a.skip(1);
        let y = b.skip(1);
        if x == y {
            assert(a =~= seq![a[0]] + x);
            assert(b =~= seq![b[0]] + y);
        }
        lemma_total(x, y);
    } else if a.len() == 0 && b.len() == 0 {
        assert(a =~= b);
    }
}

proof fn lemma_transitive(a: Seq<char>, b: Seq<char>, c: Seq<char>)
    requires
        proxy_registry::before(a, b),
        proxy_registry::before(b, c),
    ensures
        proxy_registry::before(a, c),
    decreases a.len(),
{
    if a.len() > 0 && b.len() > 0 && c.len() > 0 && a[0] == b[0] && b[0] == c[0] {
        lemma_transitive(a.skip(1), b.skip(1), c.skip(1));
    }
}

/// The delays of a group are told in the order of the members' names, each once.
pub proof fn law_delays_are_in_order(m: Seq<Measured>)
    ensures
        in_order(delay_list(m)),
    decreases m.len(),
{
    if m.len() > 0 {
        law_delays_are_in_order(m.drop_last());
        lemma_put(delay_list(m.drop_last()), m.last().name@, m.last().delay);
    }
}

} // verus!
