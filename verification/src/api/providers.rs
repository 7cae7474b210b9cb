//! Providers of proxies and of rules, and listeners.

use crate::api::delay;
use crate::api::logs;
use crate::api::reply;
use crate::api::reply::Reply;
use crate::config::listener;
use crate::config::listener::NamedListener;
use crate::config::raw::RawRuleProvider;
use crate::config::rule_provider::{ProviderType, ProviderView, RuleProvider, RuleSetBehavior};
use crate::text;
use vstd::prelude::*;

verus! {

/// How the proxies of a provider are checked.
#[derive(Clone, Debug)]
pub struct ProviderHealth {
    pub url: String,
    /// In milliseconds.
    pub timeout: u64,
    pub expected_status: String,
}

/// What is told of a provider of proxies, apart from its proxies.
#[derive(Clone, Debug)]
pub struct ProviderInfo {
    pub name: String,
    pub provider_type: String,
    pub vehicle_type: String,
    pub test_url: String,
    pub expected_status: String,
    pub updated_at: Option<String>,
}

/// Whether what is told of a provider of proxies is so.
pub open spec fn provider_told(
    i: ProviderInfo,
    name: Seq<char>,
    vehicle_type: Seq<char>,
    health: Option<ProviderHealth>,
    updated_at: u64,
) -> bool {
    &&& i.name@ == name
    &&& i.provider_type@ == "Proxy"@
    &&& i.vehicle_type@ == vehicle_type
    &&& i.test_url@ == (match health {
        Some(h) => h.url@,
        None => Seq::empty(),
    })
    &&& i.expected_status@ == (match health {
        Some(h) => h.expected_status@,
        None => Seq::empty(),
    })
    &&& text::opt_view(i.updated_at) == logs::updated_text(updated_at)
}

/// Tells of a provider of proxies.
pub fn provider_to_info(
    name: &str,
    vehicle_type: &str,
    health: &Option<ProviderHealth>,
    updated_at: u64,
) -> (i: ProviderInfo)
    ensures
        provider_told(i, name@, vehicle_type@, *health, updated_at),
{
    let (test_url, expected_status) = match health {
        Some(h) => (h.url.clone(), h.expected_status.clone()),
        None => (String::new(), String::new()),
    };
    ProviderInfo {
        name: name.to_owned(),
        provider_type: "Proxy".to_owned(),
        vehicle_type: vehicle_type.to_owned(),
        test_url,
        expected_status,
        updated_at: logs::unix_rfc3339(updated_at),
    }
}

/// The answer to a request to bring a provider of proxies up to date, given what came
/// of it.
pub fn refresh_provider(known: bool, refreshed: Result<(), String>) -> (r: Reply)
    ensures
        r@ == (if !known {
            reply::told(404, "resource not found"@)
        } else {
            match refreshed {
                Ok(_) => reply::bare(204),
                Err(e) => reply::told(503, e@),
            }
        }),
{
    if !known {
        return reply::msg_err(reply::NOT_FOUND, "resource not found");
    }
    match refreshed {
        Ok(_) => reply::only(reply::NO_CONTENT),
        Err(e) => reply::msg_err(reply::SERVICE_UNAVAILABLE, e.as_str()),
    }
}

/// A check of the proxies of a provider.
#[derive(Clone, Debug)]
pub struct HealthPlan {
    pub url: String,
    /// In milliseconds, one at least.
    pub timeout: u64,
    pub expected: Option<String>,
}

/// What a request to check a provider leads to.
#[derive(Clone, Debug)]
pub enum HealthStep {
    Reply(Reply),
    /// The proxies are checked, and then the answer is 204.
    Check(HealthPlan),
}

/// Whether the address and the timeout of a request can be used, each where it is
/// given.
pub open spec fn usable(url: Option<Seq<char>>, timeout: Option<Seq<char>>) -> bool {
    &&& url matches Some(u) ==> text::trimmed(u).len() > 0
    &&& timeout matches Some(t) ==> delay::timeout_set(t) is Some
}

/// Plans the check of a provider: none is done where it has none to do. The address
/// and the timeout that the request gives go before those of the configuration, and
/// are held to the rules for measuring one proxy.
pub fn provider_healthcheck(
    known: bool,
    health: &Option<ProviderHealth>,
    url: Option<String>,
    timeout: Option<String>,
) -> (r: HealthStep)
    ensures
        (match (known, *health) {
            (false, _) => r matches HealthStep::Reply(e) && e@ == reply::told(
                404,
                "resource not found"@,
            ),
            (true, None) => r matches HealthStep::Reply(e) && e@ == reply::bare(204),
            (true, Some(h)) => if !usable(text::opt_view(url), text::opt_view(timeout)) {
                r matches HealthStep::Reply(e) && e@ == reply::told(400, "Body invalid"@)
            } else {
                &&& r is Check
                &&& r->Check_0.url@ == (match url {
                    Some(u) => u@,
                    None => h.url@,
                })
                &&& r->Check_0.timeout == (match timeout {
                    Some(t) => delay::timeout_set(t@)->0,
                    None => if h.timeout == 0 {
                        1
                    } else {
                        h.timeout as nat
                    },
                })
                &&& text::opt_view(r->Check_0.expected) == (if h.expected_status@.len() == 0 {
                    None
                } else {
                    Some(h.expected_status@)
                })
            },
        }),
{
    if !known {
        return HealthStep::Reply(reply::msg_err(reply::NOT_FOUND, "resource not found"));
    }
    match health {
        None => HealthStep::Reply(reply::only(reply::NO_CONTENT)),
        Some(h) => {
            let url = match url {
                Some(u) => {
                    if !delay::is_address(u.as_str()) {
                        return HealthStep::Reply(
                            reply::msg_err(reply::BAD_REQUEST, "Body invalid"),
                        );
                    }
                    u
                },
                None => h.url.clone(),
            };
            let timeout = match timeout {
                Some(t) => match delay::parse_timeout(t.as_str()) {
                    Some(n) => n,
                    None => return HealthStep::Reply(
                        reply::msg_err(reply::BAD_REQUEST, "Body invalid"),
                    ),
                },
                None => if h.timeout == 0 {
                    1
                } else {
                    h.timeout
                },
            };
            let expected = if text::chars_of(h.expected_status.as_str()).len() == 0 {
                None
            } else {
                Some(h.expected_status.clone())
            };
            HealthStep::Check(HealthPlan { url, timeout, expected })
        },
    }
}

/// A request that gives both an address and a timeout can be used exactly where a
/// measurement of one proxy with them can be done.
pub proof fn law_checks_take_what_measurements_take(url: Seq<char>, timeout: Seq<char>)
    ensures
        usable(Some(url), Some(timeout)) <==> delay::budget(Some(url), Some(timeout)) is Some,
{
}

/// What is told of a provider of rules.
#[derive(Clone, Debug)]
pub struct RuleProviderInfo {
    pub name: String,
    pub provider_type: String,
    pub behavior: RuleSetBehavior,
    pub format: String,
    pub rule_count: usize,
    pub updated_at: String,
    pub vehicle_type: String,
}

/// How a kind of source is shown.
pub open spec fn vehicle_shown(t: ProviderType) -> Seq<char> {
    match t {
        ProviderType::Http => "HTTP"@,
        ProviderType::File => "File"@,
        ProviderType::Inline => "Inline"@,
    }
}

/// The format that a configuration gives a source, from an entry on.
pub open spec fn format_in(
    list: Seq<(String, RawRuleProvider)>,
    name: Seq<char>,
    from: int,
) -> Option<Seq<char>>
    decreases list.len() - from,
{
    if from < 0 || from >= list.len() {
        None
    } else if list[from].0@ == name {
        text::opt_view(list[from].1.format)
    } else {
        format_in(list, name, from + 1)
    }
}

/// Finds the format that a configuration gives a source.
pub fn configured_format(list: &Vec<(String, RawRuleProvider)>, name: &str) -> (r: Option<String>)
    ensures
        text::opt_view(r) == format_in(list@, name@, 0),
{
    let mut i: usize = 0;
    while i < list.len()
        invariant
            i <= list@.len(),
            format_in(list@, name@, 0) == format_in(list@, name@, i as int),
        decreases list@.len() - i,
    {
        if text::same(list[i].0.as_str(), name) {
            return match &list[i].1.format {
                Some(f) => Some(f.clone()),
                None => None,
            };
        }
        i += 1;
    }
    None
}

/// Whether what is told of a provider of rules is so. The usual format is YAML.
pub open spec fn rules_told(
    i: RuleProviderInfo,
    p: ProviderView,
    rule_count: usize,
    format: Option<Seq<char>>,
) -> bool {
    &&& i.name@ == p.name
    &&& i.provider_type@ == "Rule"@
    &&& i.behavior == p.behavior
    &&& i.format@ == (match format {
        Some(f) => f,
        None => "yaml"@,
    })
    &&& i.rule_count == rule_count
    &&& i.updated_at@ == (match logs::updated_text(p.updated_at) {
        Some(t) => t,
        None => Seq::empty(),
    })
    &&& i.vehicle_type@ == vehicle_shown(p.provider_type)
}

impl RuleProviderInfo {
    /// Tells of a provider of rules, which holds so many.
    pub fn from_provider(p: &RuleProvider, rule_count: usize, format: Option<String>) -> (i:
        RuleProviderInfo)
        ensures
            rules_told(i, p@, rule_count, text::opt_view(format)),
    {
        let vehicle_type = match p.kind() {
            ProviderType::Http => "HTTP".to_owned(),
            ProviderType::File => "File".to_owned(),
            ProviderType::Inline => "Inline".to_owned(),
        };
        RuleProviderInfo {
            name: p.source_name().to_owned(),
            provider_type: "Rule".to_owned(),
            behavior: p.subject(),
            format: match format {
                Some(f) => f,
                None => "yaml".to_owned(),
            },
            rule_count,
            updated_at: match logs::unix_rfc3339(p.updated_at_secs()) {
                Some(t) => t,
                None => String::new(),
            },
            vehicle_type,
        }
    }
}

/// The answer to a request to bring a provider of rules up to date, given whether
/// that worked.
pub fn refresh_rule_provider(known: bool, refreshed: bool) -> (r: Reply)
    ensures
        r@ == reply::bare(
            if !known {
                404
            } else if refreshed {
                204
            } else {
                503
            },
        ),
{
    if !known {
        reply::only(reply::NOT_FOUND)
    } else if refreshed {
        reply::only(reply::NO_CONTENT)
    } else {
        reply::only(reply::SERVICE_UNAVAILABLE)
    }
}

/// What is told of a listener.
#[derive(Clone, Debug)]
pub struct ListenerInfo {
    pub name: String,
    pub listener_type: String,
    pub port: u16,
    pub listen: String,
}

/// Whether what is told of a listener is so.
pub open spec fn listener_told(i: ListenerInfo, l: NamedListener) -> bool {
    &&& i.name@ == l.name@
    &&& i.listener_type@ == listener::protocol_name(l.listener_type)
    &&& i.port == l.port
    &&& i.listen@ == l.listen@
}

/// Tells of every listener.
pub fn get_listeners(listeners: &Vec<NamedListener>) -> (out: Vec<ListenerInfo>)
    ensures
        out@.len() == listeners@.len(),
        forall|i: int| 0 <= i < out@.len() ==> listener_told(#[trigger] out@[i], listeners@[i]),
{
    let mut out: Vec<ListenerInfo> = Vec::new();
    let mut i: usize = 0;
    while i < listeners.len()
        invariant
            i <= listeners@.len(),
            out@.len() == i,
            forall|j: int| 0 <= j < i ==> listener_told(#[trigger] out@[j], listeners@[j]),
        decreases listeners@.len() - i,
    {
        let l = &listeners[i];
        out.push(
            ListenerInfo {
                name: l.name.clone(),
                listener_type: l.listener_type.name(),
                port: l.port,
                listen: l.listen.clone(),
            },
        );
        i += 1;
    }
    out
}

} // verus!
