//! What is started with a configuration.

use crate::config::assemble::Config;
use crate::config::geo::GeoDataConfig;
use crate::config::listener;
use crate::config::listener::{ListenerType, ListenerView, NamedListener};
use crate::config::raw::RawProxyGroup;
use crate::config::proxy_registry;
use crate::config::rule_provider::{ProviderType, RuleProvider};
use crate::daemon::health;
use crate::daemon::health::HealthCheckSpec;
use crate::net;
use crate::net::SocketAddr;
use crate::number;
use crate::text;
use vstd::prelude::*;
use vstd::string::*;

verus! {

/// The address of a listener as a text.
pub open spec fn address_text(l: ListenerView) -> Seq<char> {
    l.listen + ":"@ + number::decimal(l.port as nat)
}

/// The address of a listener.
pub fn listener_address(l: &NamedListener) -> (r: Option<SocketAddr>)
    ensures
        r == net::socket(address_text(l@)),
{
    let n = number::to_decimal(l.port as u64);
    net::parse_socket(l.listen.as_str().to_owned().concat(":").concat(n.as_str()).as_str())
}

/// A listener to start: its position, its address, and whether it is transparent.
#[derive(Clone, Copy, Debug, PartialEq, Eq, Structural)]
pub struct ListenerStart {
    pub position: usize,
    pub address: SocketAddr,
    pub transparent: bool,
}

/// The listeners that are started, up to the first whose address cannot be read.
pub open spec fn starts(l: Seq<ListenerView>, n: nat) -> Seq<ListenerStart>
    decreases n,
{
    if n == 0 {
        Seq::empty()
    } else {
        let r = starts(l, (n - 1) as nat);
        match net::socket(address_text(l[n - 1])) {
            Some(address) => if r.len() == n - 1 {
                r.push(
                    ListenerStart {
                        position: (n - 1) as usize,
                        address,
                        transparent: l[n - 1].listener_type == ListenerType::TProxy,
                    },
                )
            } else {
                r
            },
            None => r,
        }
    }
}

proof fn lemma_starts_stop(l: Seq<ListenerView>, m: nat, n: nat)
    requires
        m < n <= l.len(),
        starts(l, m).len() <= m,
        net::socket(address_text(l[m as int])) is None,
    ensures
        starts(l, n) == starts(l, m),
    decreases n,
{
    if n == m + 1 {
        assert(starts(l, n) == starts(l, m));
    } else {
        lemma_starts_stop(l, m, (n - 1) as nat);
        assert(starts(l, (n - 1) as nat).len() < n - 1);
    }
}

/// The listeners to start, in order. All are started where there are as many as
/// listeners; else the next one has an address that cannot be read, and the program
/// ends there.
pub fn plan_listeners(named: &Vec<NamedListener>) -> (out: Vec<ListenerStart>)
    ensures
        out@ == starts(listener::listener_views(named@), named@.len()),
{
    let ghost all = listener::listener_views(named@);
    let mut out: Vec<ListenerStart> = Vec::new();
    let mut i: usize = 0;
    while i < named.len()
        invariant
            i <= named@.len(),
            all == listener::listener_views(named@),
            out@.len() == i,
            out@ == starts(all, i as nat),
        decreases named@.len() - i,
    {
        assert(all[i as int] == named@[i as int]@);
        match listener_address(&named[i]) {
            Some(address) => {
                let transparent = named[i].listener_type == ListenerType::TProxy;
                out.push(ListenerStart { position: i, address, transparent });
            },
            None => {
                proof {
                    lemma_starts_stop(all, i as nat, named@.len());
                }
                return out;
            },
        }
        i += 1;
    }
    out
}

/// The positions of the sources of rules that are fetched again from time to time.
pub open spec fn repeating(p: Seq<RuleProvider>) -> Seq<int>
    decreases p.len(),
{
    if p.len() == 0 {
        Seq::empty()
    } else {
        let r = repeating(p.drop_last());
        if p.last()@.provider_type == ProviderType::Http && p.last()@.interval > 0 {
            r.push(p.len() - 1)
        } else {
            r
        }
    }
}

/// The positions of the sources of rules that are fetched again from time to time.
pub fn plan_refreshes(providers: &Vec<RuleProvider>) -> (out: Vec<usize>)
    ensures
        out@.map_values(|x: usize| x as int) == repeating(providers@),
{
    let ghost view = |x: usize| x as int;
    let mut out: Vec<usize> = Vec::new();
    let mut i: usize = 0;
    assert(providers@.take(0) =~= Seq::empty());
    assert(out@.map_values(view) =~= Seq::empty());
    while i < providers.len()
        invariant
            i <= providers@.len(),
            view == (|x: usize| x as int),
            out@.map_values(view) == repeating(providers@.take(i as int)),
        decreases providers@.len() - i,
    {
        assert(providers@.take(i + 1).drop_last() =~= providers@.take(i as int));
        assert(providers@.take(i + 1).last() == providers@[i as int]);
        if providers[i].repeats() {
            let ghost had = out@.map_values(view);
            out.push(i);
            assert(out@.map_values(view) =~= had.push(i as int));
        }
        i += 1;
    }
    assert(providers@.take(i as int) =~= providers@);
    out
}

/// A task that runs beside the listeners.
#[derive(Clone, Copy, Debug, PartialEq, Eq, Structural)]
pub enum Task {
    /// Fetch the source of rules at this position again from time to time.
    RefreshRules(usize),
    /// Fetch the subscriptions again from time to time.
    RefreshSubscriptions,
    /// Fetch the databases that are missing, once.
    FetchDatabases,
    /// Look for newer databases every so many hours.
    UpdateDatabases(u32),
}

/// The tasks that refresh sources of rules.
pub open spec fn refreshing(positions: Seq<int>) -> Seq<Task> {
    positions.map_values(|i: int| Task::RefreshRules(i as usize))
}

/// The tasks of a configuration: one for each source of rules that repeats, that of the
/// subscriptions, the fetch of missing databases, whether or not they are updated, and
/// the updates where they are switched on.
pub open spec fn tasks_of(providers: Seq<RuleProvider>, geodata: GeoDataConfig) -> Seq<Task> {
    let always = refreshing(repeating(providers)).push(Task::RefreshSubscriptions).push(
        Task::FetchDatabases,
    );
    if geodata.auto_update {
        always.push(Task::UpdateDatabases(geodata.auto_update_interval))
    } else {
        always
    }
}

/// Plans the tasks that run beside the listeners.
pub fn plan_tasks(providers: &Vec<RuleProvider>, geodata: &GeoDataConfig) -> (out: Vec<Task>)
    ensures
        out@ == tasks_of(providers@, *geodata),
{
    let positions = plan_refreshes(providers);
    let ghost all = refreshing(repeating(providers@));
    let mut out: Vec<Task> = Vec::new();
    let mut i: usize = 0;
    assert(all.len() == positions@.len());
    while i < positions.len()
        invariant
            i <= positions@.len(),
            all.len() == positions@.len(),
            positions@.map_values(|x: usize| x as int) == repeating(providers@),
            all == refreshing(repeating(providers@)),
            out@ == all.take(i as int),
        decreases positions@.len() - i,
    {
        assert(repeating(providers@)[i as int] == positions@[i as int] as int);
        out.push(Task::RefreshRules(positions[i]));
        assert(out@ =~= all.take(i + 1));
        i += 1;
    }
    assert(all.take(i as int) =~= all);
    out.push(Task::RefreshSubscriptions);
    out.push(Task::FetchDatabases);
    if geodata.auto_update {
        out.push(Task::UpdateDatabases(geodata.auto_update_interval));
    }
    out
}

/// What is started with a configuration.
#[derive(Debug)]
pub struct RunPlan {
    pub health_checks: Vec<HealthCheckSpec>,
    /// Where names are answered for others.
    pub dns: Option<SocketAddr>,
    /// Where the control interface listens.
    pub api: Option<SocketAddr>,
    /// What runs beside the listeners.
    pub tasks: Vec<Task>,
    pub listeners: Vec<ListenerStart>,
    /// Whether every listener can be started.
    pub complete: bool,
}

/// What is started with a configuration: the health checks, the nameserver, the
/// control interface, the tasks and the listeners.
pub fn run(config: &Config) -> (p: RunPlan)
    ensures
        health::check_views(p.health_checks@) == health::checks_of(
            proxy_registry::groups_in(config.raw),
        ),
        p.dns == config.dns.listen,
        p.api == config.api.external_controller,
        p.tasks@ == tasks_of(config.rule_providers@, config.geodata),
        p.listeners@ == starts(
            listener::listener_views(config.listeners.named@),
            config.listeners.named@.len(),
        ),
        p.complete == (p.listeners@.len() == config.listeners.named@.len()),
{
    let health_checks = match &config.raw.proxy_groups {
        Some(g) => health::extract_specs(g),
        None => {
            let none: Vec<RawProxyGroup> = Vec::new();
            let out = health::extract_specs(&none);
            assert(none@ =~= proxy_registry::groups_in(config.raw));
            out
        },
    };
    let listeners = plan_listeners(&config.listeners.named);
    let complete = listeners.len() == config.listeners.named.len();
    RunPlan {
        health_checks,
        dns: config.dns.listen,
        api: config.api.external_controller,
        tasks: plan_tasks(&config.rule_providers, &config.geodata),
        listeners,
        complete,
    }
}

} // verus!
