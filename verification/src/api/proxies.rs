//! Proxies and groups as they run.

use crate::api::reply;
use crate::api::reply::Reply;
use crate::text;
use vstd::prelude::*;
use vstd::string::*;

verus! {

/// A measurement of the past.
#[derive(Clone, Debug)]
pub struct DelayHistory {
    pub time: String,
    pub delay: u16,
}

/// What is known of a proxy as it runs.
#[derive(Debug)]
pub struct ProxyState {
    pub name: String,
    pub proxy_type: String,
    pub alive: bool,
    pub history: Vec<DelayHistory>,
    pub udp: bool,
    /// The members of a group.
    pub members: Option<Vec<String>>,
    /// The member in use.
    pub current: Option<String>,
    /// The member that the user chose.
    pub fixed: Option<String>,
    pub test_url: Option<String>,
    pub expected_status: Option<String>,
    /// The last delay; zero where there is none.
    pub last_delay: u16,
}

/// What is told of a proxy.
#[derive(Debug)]
pub struct ProxyInfo {
    pub name: String,
    pub proxy_type: String,
    pub alive: bool,
    pub history: Vec<DelayHistory>,
    pub udp: bool,
    pub all: Option<Vec<String>>,
    pub now: Option<String>,
    pub fixed: Option<String>,
    pub test_url: Option<String>,
    pub expected_status: Option<String>,
    pub delay: Option<u16>,
}

/// What is told of a proxy. A delay is told only once one was measured.
pub open spec fn proxy_told(p: ProxyState) -> ProxyInfo {
    ProxyInfo {
        name: p.name,
        proxy_type: p.proxy_type,
        alive: p.alive,
        history: p.history,
        udp: p.udp,
        all: p.members,
        now: p.current,
        fixed: p.fixed,
        test_url: p.test_url,
        expected_status: p.expected_status,
        delay: if p.last_delay > 0 {
            Some(p.last_delay)
        } else {
            None
        },
    }
}

impl ProxyInfo {
    /// Tells of a proxy.
    pub fn from_proxy(p: ProxyState) -> (i: ProxyInfo)
        ensures
            i == proxy_told(p),
    {
        ProxyInfo {
            name: p.name,
            proxy_type: p.proxy_type,
            alive: p.alive,
            history: p.history,
            udp: p.udp,
            all: p.members,
            now: p.current,
            fixed: p.fixed,
            test_url: p.test_url,
            expected_status: p.expected_status,
            delay: if p.last_delay > 0 {
                Some(p.last_delay)
            } else {
                None
            },
        }
    }
}

/// What is told of the proxies that are groups.
pub open spec fn groups_told(p: Seq<ProxyState>) -> Seq<ProxyInfo>
    decreases p.len(),
{
    if p.len() == 0 {
        Seq::empty()
    } else {
        let r = groups_told(p.drop_last());
        if p.last().members is Some {
            r.push(proxy_told(p.last()))
        } else {
            r
        }
    }
}

/// Tells of every group.
pub fn get_groups(proxies: Vec<ProxyState>) -> (out: Vec<ProxyInfo>)
    ensures
        out@ == groups_told(proxies@),
{
    let ghost all = proxies@;
    let mut rest = proxies;
    let mut out: Vec<ProxyInfo> = Vec::new();
    let ghost mut i: int = 0;
    assert(all.take(0) =~= Seq::empty());
    while rest.len() > 0
        invariant
            0 <= i <= all.len(),
            rest@ == all.skip(i),
            out@ == groups_told(all.take(i)),
        decreases rest@.len(),
    {
        assert(all.take(i + 1).drop_last() =~= all.take(i));
        assert(all.take(i + 1).last() == all[i]);
        let p = rest.remove(0);
        assert(p == all[i]);
        assert(rest@ =~= all.skip(i + 1));
        if p.members.is_some() {
            out.push(ProxyInfo::from_proxy(p));
        }
        proof {
            i = i + 1;
        }
    }
    assert(all.take(i) =~= all);
    out
}

/// Tells of a group. What is not a group is not found.
pub fn get_group(found: Option<ProxyState>) -> (r: Result<ProxyInfo, Reply>)
    ensures
        (match found {
            Some(p) => if p.members is Some {
                r == Ok::<ProxyInfo, Reply>(proxy_told(p))
            } else {
                r matches Err(e) && e@ == reply::told(404, "Resource not found"@)
            },
            None => r matches Err(e) && e@ == reply::told(404, "Resource not found"@),
        }),
{
    if let Some(p) = found {
        if p.members.is_some() {
            return Ok(ProxyInfo::from_proxy(p));
        }
    }
    Err(reply::msg_err(reply::NOT_FOUND, "Resource not found"))
}

/// What is known of a proxy that is to be switched over.
#[derive(Clone, Copy, Debug, PartialEq, Eq, Structural)]
pub enum Selectable {
    /// There is no such proxy.
    Missing,
    /// It has no members to choose from.
    NoChoice,
    /// A member can be chosen; whether the choice can be lifted again.
    Choice { can_unfix: bool },
}

/// Checks that a member of a group can be chosen.
pub fn may_select(s: Selectable) -> (r: Result<(), Reply>)
    ensures
        (match s {
            Selectable::Missing => r matches Err(e) && e@ == reply::told(
                404,
                "Resource not found"@,
            ),
            Selectable::NoChoice => r matches Err(e) && e@ == reply::told(
                400,
                "Must be a Selector"@,
            ),
            Selectable::Choice { .. } => r is Ok,
        }),
{
    match s {
        Selectable::Missing => Err(reply::msg_err(reply::NOT_FOUND, "Resource not found")),
        Selectable::NoChoice => Err(reply::msg_err(reply::BAD_REQUEST, "Must be a Selector")),
        Selectable::Choice { .. } => Ok(()),
    }
}

/// The answer to a choice, given what the group said to it.
pub fn update_proxy(s: Selectable, set: Result<(), String>) -> (r: Reply)
    ensures
        r@ == (match (s, set) {
            (Selectable::Missing, _) => reply::told(404, "Resource not found"@),
            (Selectable::NoChoice, _) => reply::told(400, "Must be a Selector"@),
            (Selectable::Choice { .. }, Ok(_)) => reply::bare(204),
            (Selectable::Choice { .. }, Err(e)) => reply::told(
                400,
                "Selector update error: "@ + e@,
            ),
        }),
{
    if let Err(e) = may_select(s) {
        return e;
    }
    match set {
        Ok(_) => reply::only(reply::NO_CONTENT),
        Err(e) => reply::msg_err(
            reply::BAD_REQUEST,
            "Selector update error: ".to_owned().concat(e.as_str()).as_str(),
        ),
    }
}

/// The answer to a choice, with its status alone.
pub fn select_proxy_in_group(s: Selectable, chosen: bool) -> (r: Reply)
    ensures
        r@ == reply::bare(
            match s {
                Selectable::Missing => 404,
                Selectable::NoChoice => 400,
                Selectable::Choice { .. } => if chosen {
                    204
                } else {
                    400
                },
            },
        ),
{
    match s {
        Selectable::Missing => reply::only(reply::NOT_FOUND),
        Selectable::NoChoice => reply::only(reply::BAD_REQUEST),
        Selectable::Choice { .. } => if chosen {
            reply::only(reply::NO_CONTENT)
        } else {
            reply::only(reply::BAD_REQUEST)
        },
    }
}

/// The answer to a request to lift a choice; it is lifted where that is 204.
pub fn unfix_proxy(s: Selectable) -> (r: Reply)
    ensures
        r@ == (match s {
            Selectable::Missing => reply::told(404, "Resource not found"@),
            Selectable::NoChoice => reply::told(400, "Body invalid"@),
            Selectable::Choice { can_unfix } => if can_unfix {
                reply::bare(204)
            } else {
                reply::told(400, "Body invalid"@)
            },
        }),
{
    match s {
        Selectable::Missing => reply::msg_err(reply::NOT_FOUND, "Resource not found"),
        Selectable::NoChoice => reply::msg_err(reply::BAD_REQUEST, "Body invalid"),
        Selectable::Choice { can_unfix } => if can_unfix {
            reply::only(reply::NO_CONTENT)
        } else {
            reply::msg_err(reply::BAD_REQUEST, "Body invalid")
        },
    }
}

/// Where a proxy of a name stands.
pub open spec fn proxy_at(p: Seq<ProxyState>, name: Seq<char>, from: int) -> Option<int>
    decreases p.len() - from,
{
    if from < 0 || from >= p.len() {
        None
    } else if p[from].name@ == name {
        Some(from)
    } else {
        proxy_at(p, name, from + 1)
    }
}

/// Tells of a proxy of a provider.
pub fn get_provider_proxy(provider: Option<Vec<ProxyState>>, name: &str) -> (r: Result<
    ProxyInfo,
    Reply,
>)
    ensures
        (match provider {
            Some(p) => match proxy_at(p@, name@, 0) {
                Some(i) => r == Ok::<ProxyInfo, Reply>(proxy_told(p@[i])),
                None => r matches Err(e) && e@ == reply::told(404, "Resource not found"@),
            },
            None => r matches Err(e) && e@ == reply::told(404, "Resource not found"@),
        }),
{
    if let Some(list) = provider {
        let mut list = list;
        let mut i: usize = 0;
        while i < list.len()
            invariant
                i <= list@.len(),
                provider matches Some(p) && p@ == list@,
                proxy_at(list@, name@, 0) == proxy_at(list@, name@, i as int),
            decreases list@.len() - i,
        {
            if text::same(list[i].name.as_str(), name) {
                return Ok(ProxyInfo::from_proxy(list.remove(i)));
            }
            i += 1;
        }
    }
    Err(reply::msg_err(reply::NOT_FOUND, "Resource not found"))
}

} // verus!
