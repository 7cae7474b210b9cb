//! Metrics, in the text format of OpenMetrics.

use crate::number;
use crate::text;
use prometheus_client::encoding::text::encode;
use prometheus_client::metrics::counter::Counter;
use prometheus_client::metrics::family::Family;
use prometheus_client::metrics::gauge::Gauge;
use std::sync::atomic::{AtomicI64, AtomicU64};
use vstd::prelude::*;

verus! {

/// Names and values of labels.
pub type Labels = Seq<(Seq<char>, Seq<char>)>;

/// Labels with their texts as sequences.
pub open spec fn labels(v: Seq<(String, String)>) -> Labels {
    v.map_values(|l: (String, String)| (l.0@, l.1@))
}

/// A metric that is registered.
pub enum Metric {
    Counters { name: Seq<char>, help: Seq<char>, samples: Map<Labels, u64> },
    Gauges { name: Seq<char>, help: Seq<char>, samples: Map<Labels, i64> },
    Gauge { name: Seq<char>, help: Seq<char>, value: i64 },
}

/// A registry of metrics.
#[verifier::external_type_specification]
#[verifier::external_body]
pub struct ExRegistry(prometheus_client::registry::Registry);

/// The metrics that a registry holds, in the order in which they were registered.
pub uninterp spec fn registered(r: prometheus_client::registry::Registry) -> Seq<Metric>;

/// Counters of the `prometheus_client` crate that differ in their labels.
#[verifier::external_body]
pub struct Counters {
    family: Family<Vec<(String, String)>, Counter<u64, AtomicU64>>,
}

/// What counters stand at, by their labels.
pub uninterp spec fn counted(c: Counters) -> Map<Labels, u64>;

/// Gauges of the `prometheus_client` crate that differ in their labels.
#[verifier::external_body]
pub struct Gauges {
    family: Family<Vec<(String, String)>, Gauge<i64, AtomicI64>>,
}

/// What gauges show, by their labels.
pub uninterp spec fn shown(g: Gauges) -> Map<Labels, i64>;

/// `Registry::default`: a registry without metrics.
#[verifier::external_body]
pub(crate) fn new_registry() -> (r: prometheus_client::registry::Registry)
    ensures
        registered(r) == Seq::<Metric>::empty(),
{
    prometheus_client::registry::Registry::default()
}

/// No counters.
pub open spec fn no_counts() -> Map<Labels, u64> {
    Map::empty()
}

/// No gauges.
pub open spec fn no_values() -> Map<Labels, i64> {
    Map::empty()
}

/// `Family::default`: no counters.
#[verifier::external_body]
pub(crate) fn new_counters() -> (c: Counters)
    ensures
        counted(c) == no_counts(),
{
    Counters { family: Family::default() }
}

/// `Family::default`: no gauges.
#[verifier::external_body]
pub(crate) fn new_gauges() -> (g: Gauges)
    ensures
        shown(g) == no_values(),
{
    Gauges { family: Family::default() }
}

/// Counters after one of them went on. It starts at zero, and starts again there
/// after the greatest number.
pub open spec fn went_on(m: Map<Labels, u64>, l: Labels, n: u64) -> Map<Labels, u64> {
    let stood = if m.dom().contains(l) {
        m[l] as nat
    } else {
        0
    };
    m.insert(l, ((stood + n) % 0x1_0000_0000_0000_0000) as u64)
}

/// `Family::get_or_create` and `Counter::inc_by`: the counter with the labels goes on
/// by a number.
#[verifier::external_body]
pub(crate) fn count(c: &mut Counters, l: Vec<(String, String)>, n: u64)
    ensures
        counted(*final(c)) == went_on(counted(*old(c)), labels(l@), n),
{
    c.family.get_or_create(&l).inc_by(n);
}

/// `Family::get_or_create` and `Gauge::set`: the gauge with the labels shows a number.
#[verifier::external_body]
pub(crate) fn show(g: &mut Gauges, l: Vec<(String, String)>, n: i64)
    ensures
        shown(*final(g)) == shown(*old(g)).insert(labels(l@), n),
{
    g.family.get_or_create(&l).set(n);
}

/// `Registry::register`: the counters come behind the metrics that are there.
#[verifier::external_body]
pub(crate) fn register_counters(r: &mut prometheus_client::registry::Registry, name: &str, help: &str, c: Counters)
    ensures
        registered(*final(r)) == registered(*old(r)).push(
            (Metric::Counters { name: name@, help: help@, samples: counted(c) }),
        ),
{
    r.register(name, help, c.family);
}

/// `Registry::register`: the gauges come behind the metrics that are there.
#[verifier::external_body]
pub(crate) fn register_gauges(r: &mut prometheus_client::registry::Registry, name: &str, help: &str, g: Gauges)
    ensures
        registered(*final(r)) == registered(*old(r)).push(
            (Metric::Gauges { name: name@, help: help@, samples: shown(g) }),
        ),
{
    r.register(name, help, g.family);
}

/// `Registry::register`, with a gauge without labels that `Gauge::set` set.
#[verifier::external_body]
pub(crate) fn register_gauge(r: &mut prometheus_client::registry::Registry, name: &str, help: &str, value: i64)
    ensures
        registered(*final(r)) == registered(*old(r)).push(
            (Metric::Gauge { name: name@, help: help@, value }),
        ),
{
    let gauge = Gauge::<i64, AtomicI64>::default();
    gauge.set(value);
    r.register(name, help, gauge);
}

/// A label as it is written.
pub open spec fn label_text(l: (Seq<char>, Seq<char>)) -> Seq<char> {
    l.0 + "=\""@ + l.1 + "\""@
}

/// Labels as they are written.
pub open spec fn labels_text(l: Labels) -> Seq<char> {
    text::joined(l.map_values(|x: (Seq<char>, Seq<char>)| label_text(x)), ","@)
}

/// The lines that stand before the samples of a metric.
pub open spec fn heading(name: Seq<char>, help: Seq<char>, kind: Seq<char>) -> Seq<char> {
    "# HELP "@ + name + " "@ + help + ".\n# TYPE "@ + name + " "@ + kind + "\n"@
}

/// The lines of counters, in an order.
pub open spec fn counter_lines(
    name: Seq<char>,
    samples: Map<Labels, u64>,
    order: Seq<Labels>,
) -> Seq<char>
    decreases order.len(),
{
    if order.len() == 0 {
        Seq::empty()
    } else {
        counter_lines(name, samples, order.drop_last()) + name + "_total{"@ + labels_text(
            order.last(),
        ) + "} "@ + number::decimal(samples[order.last()] as nat) + "\n"@
    }
}

/// The lines of gauges, in an order.
pub open spec fn gauge_lines(
    name: Seq<char>,
    samples: Map<Labels, i64>,
    order: Seq<Labels>,
) -> Seq<char>
    decreases order.len(),
{
    if order.len() == 0 {
        Seq::empty()
    } else {
        gauge_lines(name, samples, order.drop_last()) + name + "{"@ + labels_text(order.last())
            + "} "@ + number::signed(samples[order.last()] as int) + "\n"@
    }
}

/// Whether an order holds each of the labels once.
pub open spec fn lists<V>(order: Seq<Labels>, samples: Map<Labels, V>) -> bool {
    order.no_duplicates() && order.to_set() == samples.dom()
}

/// Whether a text is a metric as it is written. Its samples come in any order.
pub open spec fn writes(s: Seq<char>, m: Metric) -> bool {
    match m {
        Metric::Counters { name, help, samples } => exists|order: Seq<Labels>| #[trigger]
            lists(order, samples) && s == heading(name, help, "counter"@) + counter_lines(
                name,
                samples,
                order,
            ),
        Metric::Gauges { name, help, samples } => exists|order: Seq<Labels>| #[trigger]
            lists(order, samples) && s == heading(name, help, "gauge"@) + gauge_lines(
                name,
                samples,
                order,
            ),
        Metric::Gauge { name, help, value } => s == heading(name, help, "gauge"@) + name + " "@
            + number::signed(value as int) + "\n"@,
    }
}

/// Whether a text writes metrics, one after the other, and then the mark of the end.
pub open spec fn exposes(s: Seq<char>, m: Seq<Metric>) -> bool {
    exists|parts: Seq<Seq<char>>| #[trigger]
        parts.len() == m.len() && (forall|i: int|
            0 <= i < m.len() ==> writes(#[trigger] parts[i], m[i])) && s == text::joined(
            parts,
            ""@,
        ) + "# EOF\n"@
}

/// `prometheus_client::encoding::text::encode`: writes the metrics of a registry. The
/// order in which the samples of one metric come is left open, and it does not fail
/// on a string.
#[verifier::external_body]
pub(crate) fn encoded(r: &prometheus_client::registry::Registry) -> (s: String)
    ensures
        exposes(s@, registered(*r)),
{
    let mut body = String::new();
    encode(&mut body, r).expect("a string can be written to");
    body
}

/// What is measured of a proxy.
#[derive(Clone, Debug)]
pub struct ProxySample {
    pub name: String,
    pub adapter_type: String,
    pub alive: bool,
    /// The last delay, where one was measured.
    pub delay: Option<u16>,
}

/// How often rules of a type led to an action.
#[derive(Clone, Debug)]
pub struct RuleSample {
    pub rule_type: String,
    pub action: String,
    pub count: u64,
}

/// What is measured.
#[derive(Clone, Debug)]
pub struct Measurements {
    pub upload_total: i64,
    pub download_total: i64,
    pub connections: i64,
    pub proxies: Vec<ProxySample>,
    pub rules: Vec<RuleSample>,
    pub memory: u64,
    pub version: String,
    pub mode: String,
}

/// A pair of labels.
pub open spec fn pair(k: Seq<char>, v: Seq<char>, k2: Seq<char>, v2: Seq<char>) -> Labels {
    seq![(k, v), (k2, v2)]
}

/// A single label.
pub open spec fn single(k: Seq<char>, v: Seq<char>) -> Labels {
    seq![(k, v)]
}

/// The labels of a proxy.
pub open spec fn proxy_labels(p: ProxySample) -> Labels {
    pair("proxy_name"@, p.name@, "adapter_type"@, p.adapter_type@)
}

/// Whether proxies are alive.
pub open spec fn alive_samples(p: Seq<ProxySample>) -> Map<Labels, i64>
    decreases p.len(),
{
    if p.len() == 0 {
        Map::empty()
    } else {
        alive_samples(p.drop_last()).insert(
            proxy_labels(p.last()),
            if p.last().alive {
                1i64
            } else {
                0i64
            },
        )
    }
}

/// The delays of the proxies that have one.
pub open spec fn delay_samples(p: Seq<ProxySample>) -> Map<Labels, i64>
    decreases p.len(),
{
    if p.len() == 0 {
        Map::empty()
    } else {
        let m = delay_samples(p.drop_last());
        match p.last().delay {
            Some(d) => m.insert(proxy_labels(p.last()), d as i64),
            None => m,
        }
    }
}

/// How often rules matched.
pub open spec fn rule_samples(r: Seq<RuleSample>) -> Map<Labels, u64>
    decreases r.len(),
{
    if r.len() == 0 {
        Map::empty()
    } else {
        went_on(
            rule_samples(r.drop_last()),
            pair("rule_type"@, r.last().rule_type@, "action"@, r.last().action@),
            r.last().count,
        )
    }
}

/// A number, or zero where it is negative.
pub open spec fn at_least_zero(n: i64) -> u64 {
    if n < 0 {
        0
    } else {
        n as u64
    }
}

/// The bytes that went each way.
pub open spec fn traffic_samples(up: i64, down: i64) -> Map<Labels, u64> {
    went_on(
        went_on(Map::empty(), single("direction"@, "upload"@), at_least_zero(up)),
        single("direction"@, "download"@),
        at_least_zero(down),
    )
}

/// The metrics of the program.
pub open spec fn metrics_of(m: Measurements) -> Seq<Metric> {
    seq![
        Metric::Counters {
            name: "meow_traffic_bytes"@,
            help: "Cumulative bytes transferred since process start"@,
            samples: traffic_samples(m.upload_total, m.download_total),
        },
        Metric::Gauge {
            name: "meow_connections_active"@,
            help: "Number of currently open connections"@,
            value: m.connections,
        },
        Metric::Gauges {
            name: "meow_proxy_alive"@,
            help: "Proxy alive status (1=alive, 0=dead)"@,
            samples: alive_samples(m.proxies@),
        },
        Metric::Gauges {
            name: "meow_proxy_delay_ms"@,
            help: "Last measured proxy round-trip delay in milliseconds"@,
            samples: delay_samples(m.proxies@),
        },
        Metric::Counters {
            name: "meow_rules_matched"@,
            help: "Cumulative rule matches by type and action"@,
            samples: rule_samples(m.rules@),
        },
        Metric::Gauge {
            name: "meow_memory_rss_bytes"@,
            help: "Current process RSS in bytes"@,
            value: m.memory as i64,
        },
        Metric::Gauges {
            name: "meow_info"@,
            help: "meow-rs runtime info"@,
            samples: Map::empty().insert(pair("version"@, m.version@, "mode"@, m.mode@), 1i64),
        },
    ]
}

fn one_label(k: &str, v: &str) -> (l: Vec<(String, String)>)
    ensures
        labels(l@) == single(k@, v@),
{
    let mut l: Vec<(String, String)> = Vec::new();
    l.push((k.to_owned(), v.to_owned()));
    assert(labels(l@) =~= single(k@, v@));
    l
}

fn two_labels(k: &str, v: &str, k2: &str, v2: &str) -> (l: Vec<(String, String)>)
    ensures
        labels(l@) == pair(k@, v@, k2@, v2@),
{
    let mut l: Vec<(String, String)> = Vec::new();
    l.push((k.to_owned(), v.to_owned()));
    l.push((k2.to_owned(), v2.to_owned()));
    assert(labels(l@) =~= pair(k@, v@, k2@, v2@));
    l
}

fn non_negative(n: i64) -> (r: u64)
    ensures
        r == at_least_zero(n),
{
    if n < 0 {
        0
    } else {
        n as u64
    }
}

fn traffic(up: i64, down: i64) -> (c: Counters)
    ensures
        counted(c) == traffic_samples(up, down),
{
    let mut c = new_counters();
    count(&mut c, one_label("direction", "upload"), non_negative(up));
    count(&mut c, one_label("direction", "download"), non_negative(down));
    c
}

fn proxy_gauges(p: &Vec<ProxySample>) -> (r: (Gauges, Gauges))
    ensures
        shown(r.0) == alive_samples(p@),
        shown(r.1) == delay_samples(p@),
{
    let mut alive = new_gauges();
    let mut delay = new_gauges();
    let mut i: usize = 0;
    assert(p@.take(0) =~= Seq::empty());
    while i < p.len()
        invariant
            i <= p@.len(),
            shown(alive) == alive_samples(p@.take(i as int)),
            shown(delay) == delay_samples(p@.take(i as int)),
        decreases p@.len() - i,
    {
        assert(p@.take(i + 1).drop_last() =~= p@.take(i as int));
        assert(p@.take(i + 1).last() == p@[i as int]);
        let name = p[i].name.as_str();
        let adapter = p[i].adapter_type.as_str();
        let l = two_labels("proxy_name", name, "adapter_type", adapter);
        let value: i64 = if p[i].alive {
            1
        } else {
            0
        };
        show(&mut alive, l, value);
        if let Some(d) = p[i].delay {
            let l = two_labels("proxy_name", name, "adapter_type", adapter);
            show(&mut delay, l, d as i64);
        }
        i += 1;
    }
    assert(p@.take(i as int) =~= p@);
    (alive, delay)
}

fn rule_counters(r: &Vec<RuleSample>) -> (c: Counters)
    ensures
        counted(c) == rule_samples(r@),
{
    let mut c = new_counters();
    let mut i: usize = 0;
    assert(r@.take(0) =~= Seq::empty());
    while i < r.len()
        invariant
            i <= r@.len(),
            counted(c) == rule_samples(r@.take(i as int)),
        decreases r@.len() - i,
    {
        assert(r@.take(i + 1).drop_last() =~= r@.take(i as int));
        assert(r@.take(i + 1).last() == r@[i as int]);
        let l = two_labels(
            "rule_type",
            r[i].rule_type.as_str(),
            "action",
            r[i].action.as_str(),
        );
        count(&mut c, l, r[i].count);
        i += 1;
    }
    assert(r@.take(i as int) =~= r@);
    c
}

/// Writes the metrics of the program. A delay is left out where none was measured.
pub fn get_metrics(m: &Measurements) -> (s: String)
    ensures
        exposes(s@, metrics_of(*m)),
{
    let mut r = new_registry();
    register_counters(
        &mut r,
        "meow_traffic_bytes",
        "Cumulative bytes transferred since process start",
        traffic(m.upload_total, m.download_total),
    );
    register_gauge(
        &mut r,
        "meow_connections_active",
        "Number of currently open connections",
        m.connections,
    );
    let (alive, delay) = proxy_gauges(&m.proxies);
    register_gauges(&mut r, "meow_proxy_alive", "Proxy alive status (1=alive, 0=dead)", alive);
    register_gauges(
        &mut r,
        "meow_proxy_delay_ms",
        "Last measured proxy round-trip delay in milliseconds",
        delay,
    );
    register_counters(
        &mut r,
        "meow_rules_matched",
        "Cumulative rule matches by type and action",
        rule_counters(&m.rules),
    );
    register_gauge(
        &mut r,
        "meow_memory_rss_bytes",
        "Current process RSS in bytes",
        m.memory as i64,
    );
    let mut info = new_gauges();
    show(&mut info, two_labels("version", m.version.as_str(), "mode", m.mode.as_str()), 1);
    register_gauges(&mut r, "meow_info", "meow-rs runtime info", info);
    assert(registered(r) =~= metrics_of(*m));
    encoded(&r)
}

/// A proxy that was never measured has no delay among the metrics.
pub proof fn law_unmeasured_proxies_have_no_delay(p: Seq<ProxySample>, l: Labels)
    requires
        forall|i: int|
            0 <= i < p.len() && proxy_labels(#[trigger] p[i]) == l ==> p[i].delay is None,
    ensures
        !delay_samples(p).dom().contains(l),
    decreases p.len(),
{
    if p.len() > 0 {
        let f = p.drop_last();
        assert forall|i: int|
            0 <= i < f.len() && proxy_labels(#[trigger] f[i]) == l implies f[i].delay is None by {
            assert(p[i] == f[i]);
        }
        law_unmeasured_proxies_have_no_delay(f, l);
        assert(p[p.len() - 1] == p.last());
    }
}

} // verus!
