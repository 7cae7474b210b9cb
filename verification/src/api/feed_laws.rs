//! What holds of the log as clients read it, and of the metrics.

use crate::api::logs;
use crate::api::logs::{LogEvent, LogLevel, LogStep};
use crate::api::metrics;
use crate::api::metrics::{Labels, Measurements, Metric, ProxySample, RuleSample};
use crate::api::reply::Reply;
use crate::number;
use crate::text;
use vstd::prelude::*;
use vstd::string::*;

verus! {

proof fn lemma_levels()
    ensures
        "debug"@.len() == 5 && "debug"@[0] == 'd',
        "info"@.len() == 4 && "info"@[0] == 'i',
        "warning"@.len() == 7,
        "warn"@.len() == 4 && "warn"@[0] == 'w',
        "error"@.len() == 5 && "error"@[0] == 'e',
        "silent"@.len() == 6,
        text::ascii_lower("debug"@) == "debug"@,
        text::ascii_lower("info"@) == "info"@,
        text::ascii_lower("warning"@) == "warning"@,
        text::ascii_lower("warn"@) == "warn"@,
        text::ascii_lower("error"@) == "error"@,
        text::ascii_lower("silent"@) == "silent"@,
{
    reveal_strlit("debug");
    reveal_strlit("info");
    reveal_strlit("warning");
    reveal_strlit("warn");
    reveal_strlit("error");
    reveal_strlit("silent");
    assert("debug"@.len() == 5 && "info"@.len() == 4 && "warning"@.len() == 7 && "warn"@.len() == 4
        && "error"@.len() == 5 && "silent"@.len() == 6);
    assert(text::ascii_lower("debug"@) =~= "debug"@);
    assert(text::ascii_lower("info"@) =~= "info"@);
    assert(text::ascii_lower("warning"@) =~= "warning"@);
    assert(text::ascii_lower("warn"@) =~= "warn"@);
    assert(text::ascii_lower("error"@) =~= "error"@);
    assert(text::ascii_lower("silent"@) =~= "silent"@);
}

/// A level is read back from its name, in letters of either case; the short name of
/// warnings is one too.
pub proof fn law_levels_are_read_back(l: LogLevel, s: Seq<char>, t: Seq<char>)
    ensures
        logs::level_named(logs::level_name(l)) == Some(l),
        logs::level_named(logs::structured_name(l)) == Some(l),
        logs::level_named("warn"@) == Some(LogLevel::Warning),
        logs::level_named("debug"@) == Some(LogLevel::Debug),
        logs::level_named("silent"@) == Some(LogLevel::Silent),
        text::ascii_lower(s) == text::ascii_lower(t) ==> logs::level_named(s)
            == logs::level_named(t),
        l is Warning ==> logs::level_name(l) == "warning"@ && logs::structured_name(l) == "warn"@,
        !(l is Warning) ==> logs::structured_name(l) == logs::level_name(l),
        logs::level_named("info"@) == Some(LogLevel::Info),
        logs::level_named("error"@) == Some(LogLevel::Error),
        logs::level_named("warning"@) == Some(LogLevel::Warning),
{
    lemma_levels();
}

/// The levels grow graver from debugging to silence.
pub proof fn law_levels_grow_graver()
    ensures
        logs::gravity(LogLevel::Debug) < logs::gravity(LogLevel::Info) < logs::gravity(
            LogLevel::Warning,
        ) < logs::gravity(LogLevel::Error) < logs::gravity(LogLevel::Silent),
        logs::gravity(LogLevel::Debug) == 0,
        logs::gravity(LogLevel::Silent) == 4,
{
}

/// A client that names no level reads what is worth knowing; one that names none that
/// exists is refused.
pub proof fn law_which_level_is_read(value: Option<&str>, r: Result<LogLevel, Reply>)
    requires
        call_ensures(logs::parse_requested_log_level, (value,), r),
    ensures
        value is None ==> r == Ok::<LogLevel, Reply>(LogLevel::Info),
        value matches Some(v) ==> (r is Ok <==> logs::level_named(v@) is Some) && (
        r matches Ok(l) ==> logs::level_named(v@) == Some(l)),
        r matches Err(e) ==> e.status == 400,
{
}

/// A client is sent the messages that are at least as grave as it asked for, and told how
/// many it missed; its log ends with the log.
pub proof fn law_what_clients_are_sent(
    event: &LogEvent,
    level: LogLevel,
    structured: bool,
    step: LogStep,
)
    requires
        call_ensures(logs::get_logs, (event, level, structured), step),
    ensures
        step is Stop <==> event is Closed,
        step is Skip <==> (event matches LogEvent::Message(m) && logs::gravity(m.level)
            < logs::gravity(level)),
        event matches LogEvent::Message(m) ==> (step matches LogStep::Send(s) ==> s@ == logs::frame(
            *m,
            structured,
        )),
        event matches LogEvent::Message(m) ==> level is Debug ==> step is Send,
        event matches LogEvent::Lagged(n) ==> (step matches LogStep::Send(s) && s@
            == "{\"type\":\"lagged\",\"missed\":"@ + number::decimal(*n as nat).push('}')),
{
    reveal_strlit("}");
    if let LogEvent::Lagged(n) = event {
        if let LogStep::Send(s) = step {
            assert(s@ =~= "{\"type\":\"lagged\",\"missed\":"@ + number::decimal(*n as nat).push('}'));
        }
    }
}

/// The clock shows hours, minutes and seconds of the day, two digits each, on every day.
pub proof fn law_the_clock(day: int, h: int, m: int, s: int, rest: int)
    requires
        0 <= h < 24,
        0 <= m < 60,
        0 <= s < 60,
        0 <= rest < 1_000_000_000,
    ensures
        logs::clock((day * 86400 + h * 3600 + m * 60 + s) * 1_000_000_000 + rest) == seq![
            number::digit_char((h / 10) as nat),
            number::digit_char((h % 10) as nat),
            ':',
            number::digit_char((m / 10) as nat),
            number::digit_char((m % 10) as nat),
            ':',
            number::digit_char((s / 10) as nat),
            number::digit_char((s % 10) as nat),
        ],
{
    reveal_strlit(":");
    let all: int = (day * 86400 + h * 3600 + m * 60 + s) * 1_000_000_000 + rest;
    let of_day: int = h * 3600 + m * 60 + s;
    assert(all / 1_000_000_000 == day * 86400 + of_day) by (nonlinear_arith)
        requires
            all == (day * 86400 + of_day) * 1_000_000_000 + rest,
            0 <= rest < 1_000_000_000,
    ;
    assert((day * 86400 + of_day) % 86400 == of_day) by (nonlinear_arith)
        requires
            0 <= of_day < 86400,
    ;
    assert(logs::second_of_day(all) == of_day);
    assert(of_day / 3600 == h);
    assert(of_day / 60 % 60 == m);
    assert(of_day % 60 == s);
    assert(logs::clock(all) =~= seq![
        number::digit_char((h / 10) as nat),
        number::digit_char((h % 10) as nat),
        ':',
        number::digit_char((m / 10) as nat),
        number::digit_char((m % 10) as nat),
        ':',
        number::digit_char((s / 10) as nat),
        number::digit_char((s % 10) as nat),
    ]);
}

/// A message is told with what it says, when, and how grave it is, each under its name.
pub proof fn law_what_plain_messages_tell(l: LogLevel, payload: Seq<char>, time: Seq<char>)
    ensures
        ({
            let f = logs::plain_frame(l, payload, time);
            &&& ("{\"payload\":"@ + payload + ",\"time\":\""@).is_prefix_of(f)
            &&& text::has_substring(f, "\"time\":\""@ + time + "\""@)
            &&& ("\"type\":\""@ + logs::level_name(l) + "\"}"@).is_suffix_of(f)
        }),
{
    let f = logs::plain_frame(l, payload, time);
    reveal_strlit("{\"payload\":");
    reveal_strlit(",\"time\":\"");
    reveal_strlit("\"time\":\"");
    reveal_strlit("\",\"type\":\"");
    reveal_strlit("\"type\":\"");
    reveal_strlit("\"");
    reveal_strlit("\"}");
    let a = "{\"payload\":"@ + payload + ",\"time\":\""@;
    assert(f.subrange(0, a.len() as int) =~= a);
    let b = "\"time\":\""@ + time + "\""@;
    let at: int = 11 + payload.len() as int + 1;
    assert(f.subrange(at, at + b.len()) =~= b);
    assert(text::occurs_at(f, at, b));
    let c = "\"type\":\""@ + logs::level_name(l) + "\"}"@;
    assert(f.subrange(f.len() - c.len(), f.len() as int) =~= c);
}

/// The same of the other form, which has the short name of the level and the time of day.
pub proof fn law_what_structured_messages_tell(l: LogLevel, payload: Seq<char>, time: int)
    ensures
        ({
            let f = logs::structured_frame(l, payload, time);
            &&& ("{\"fields\":[],\"level\":\""@ + logs::structured_name(l) + "\""@).is_prefix_of(f)
            &&& text::has_substring(f, "\"message\":"@ + payload + ","@)
            &&& ("\"time\":\""@ + logs::clock(time) + "\"}"@).is_suffix_of(f)
        }),
{
    let f = logs::structured_frame(l, payload, time);
    reveal_strlit("{\"fields\":[],\"level\":\"");
    reveal_strlit("\",\"message\":");
    reveal_strlit("\"message\":");
    reveal_strlit(",\"time\":\"");
    reveal_strlit("\"time\":\"");
    reveal_strlit("\"");
    reveal_strlit("\"}");
    reveal_strlit(",");
    let n = logs::structured_name(l);
    let a = "{\"fields\":[],\"level\":\""@ + n + "\""@;
    assert(f.subrange(0, a.len() as int) =~= a);
    let b = "\"message\":"@ + payload + ","@;
    let at: int = a.len() as int + 1;
    assert(f.subrange(at, at + b.len()) =~= b);
    assert(text::occurs_at(f, at, b));
    let c = "\"time\":\""@ + logs::clock(time) + "\"}"@;
    assert(f.subrange(f.len() - c.len(), f.len() as int) =~= c);
}

/// Which of the two forms a message has is as the client asked; what it says is written
/// as a string of JSON in both.
pub proof fn law_which_form_a_message_has(m: logs::LogMessage, structured: bool)
    ensures
        structured ==> logs::frame(m, structured) == logs::structured_frame(
            m.level,
            logs::json_string(m.payload@),
            m.time as int,
        ),
        !structured && logs::rfc3339_text(m.time) is Some ==> logs::frame(m, structured)
            == logs::plain_frame(
            m.level,
            logs::json_string(m.payload@),
            logs::rfc3339_text(m.time)->0,
        ),
{
}

/// What was never updated has no time, and anything else the time of its second.
pub proof fn law_when_things_were_updated(seconds: u64)
    requires
        seconds <= i64::MAX,
    ensures
        logs::updated_text(0) is None,
        seconds > 0 ==> logs::updated_text(seconds) == logs::rfc3339_text(
            (seconds * 1_000_000_000) as i128,
        ),
{
    assert((seconds as i64) == seconds);
}

/// A counter goes on by what is added, the others stay, and one that was not there starts
/// from nothing.
pub proof fn law_counters_go_on(m: Map<Labels, u64>, l: Labels, n: u64, x: Labels)
    ensures
        metrics::went_on(m, l, n).dom() == m.dom().insert(l),
        x != l && m.dom().contains(x) ==> metrics::went_on(m, l, n)[x] == m[x],
        !m.dom().contains(l) ==> metrics::went_on(m, l, n)[l] == n,
        m.dom().contains(l) && m[l] + n <= u64::MAX ==> metrics::went_on(m, l, n)[l] == m[l] + n,
{
    assert(metrics::went_on(m, l, n).dom() =~= m.dom().insert(l));
}

/// A proxy is shown alive with a one and dead with a nought, under its name and type; the
/// last that is told of it counts.
pub proof fn law_who_is_shown_alive(p: Seq<ProxySample>, x: ProxySample, l: Labels)
    ensures
        metrics::alive_samples(Seq::empty()).dom() == Set::<Labels>::empty(),
        ({
            let a = metrics::alive_samples(p.push(x));
            let own = seq![
                ("proxy_name"@, x.name@),
                ("adapter_type"@, x.adapter_type@),
            ];
            &&& a.dom().contains(own)
            &&& x.alive ==> a[own] == 1
            &&& !x.alive ==> a[own] == 0
            &&& l != own ==> (a.dom().contains(l) <==> metrics::alive_samples(p).dom().contains(l))
            &&& l != own && a.dom().contains(l) ==> a[l] == metrics::alive_samples(p)[l]
        }),
{
    assert(p.push(x).drop_last() =~= p);
    assert(metrics::alive_samples(Seq::empty()) =~= Map::<Labels, i64>::empty());
}

/// A proxy is shown with its delay where it has one.
pub proof fn law_which_delays_are_shown(p: Seq<ProxySample>, x: ProxySample, l: Labels)
    ensures
        metrics::delay_samples(Seq::empty()).dom() == Set::<Labels>::empty(),
        ({
            let a = metrics::delay_samples(p.push(x));
            let own = seq![
                ("proxy_name"@, x.name@),
                ("adapter_type"@, x.adapter_type@),
            ];
            &&& x.delay is None ==> a == metrics::delay_samples(p)
            &&& x.delay matches Some(d) ==> a.dom().contains(own) && a[own] == d
            &&& l != own ==> (a.dom().contains(l) <==> metrics::delay_samples(p).dom().contains(l))
            &&& l != own && a.dom().contains(l) ==> a[l] == metrics::delay_samples(p)[l]
        }),
{
    assert(p.push(x).drop_last() =~= p);
    assert(metrics::delay_samples(Seq::empty()) =~= Map::<Labels, i64>::empty());
}

/// Matches of rules are counted together by type and action.
pub proof fn law_matches_are_counted(r: Seq<RuleSample>, x: RuleSample)
    ensures
        metrics::rule_samples(Seq::empty()).dom() == Set::<Labels>::empty(),
        metrics::rule_samples(r.push(x)) == metrics::went_on(
            metrics::rule_samples(r),
            seq![("rule_type"@, x.rule_type@), ("action"@, x.action@)],
            x.count,
        ),
{
    assert(r.push(x).drop_last() =~= r);
    assert(metrics::rule_samples(Seq::empty()) =~= Map::<Labels, u64>::empty());
}

/// What went up and what went down are counted apart; less than nothing counts as
/// nothing.
pub proof fn law_traffic_is_counted(up: i64, down: i64)
    ensures
        ({
            let t = metrics::traffic_samples(up, down);
            let u = seq![("direction"@, "upload"@)];
            let d = seq![("direction"@, "download"@)];
            &&& u != d
            &&& t.dom() == Set::<Labels>::empty().insert(u).insert(d)
            &&& up >= 0 ==> t[u] == up
            &&& up < 0 ==> t[u] == 0
            &&& down >= 0 ==> t[d] == down
            &&& down < 0 ==> t[d] == 0
        }),
{
    reveal_strlit("upload");
    reveal_strlit("download");
    assert("upload"@.len() == 6 && "download"@.len() == 8);
    let u = seq![("direction"@, "upload"@)];
    let d = seq![("direction"@, "download"@)];
    assert(u[0].1 != d[0].1);
    let none = Map::<Labels, u64>::empty();
    let one = metrics::went_on(none, u, metrics::at_least_zero(up));
    law_counters_go_on(none, u, metrics::at_least_zero(up), d);
    law_counters_go_on(one, d, metrics::at_least_zero(down), u);
    assert(none.dom() =~= Set::<Labels>::empty());
    assert(metrics::traffic_samples(up, down) == metrics::went_on(
        one,
        d,
        metrics::at_least_zero(down),
    ));
}

/// The metrics, in their order and under their names.
pub proof fn law_what_is_measured(m: Measurements)
    ensures
        ({
            let s = metrics::metrics_of(m);
            &&& s.len() == 7
            &&& s[0] matches Metric::Counters { name, samples, .. } && name
                == "meow_traffic_bytes"@ && samples == metrics::traffic_samples(
                m.upload_total,
                m.download_total,
            )
            &&& s[1] matches Metric::Gauge { name, value, .. } && name
                == "meow_connections_active"@ && value == m.connections
            &&& s[2] matches Metric::Gauges { name, samples, .. } && name == "meow_proxy_alive"@
                && samples == metrics::alive_samples(m.proxies@)
            &&& s[3] matches Metric::Gauges { name, samples, .. } && name
                == "meow_proxy_delay_ms"@ && samples == metrics::delay_samples(m.proxies@)
            &&& s[4] matches Metric::Counters { name, samples, .. } && name
                == "meow_rules_matched"@ && samples == metrics::rule_samples(m.rules@)
            &&& s[5] matches Metric::Gauge { name, value, .. } && name
                == "meow_memory_rss_bytes"@ && (m.memory <= i64::MAX ==> value == m.memory)
            &&& s[6] matches Metric::Gauges { name, samples, .. } && name == "meow_info"@
                && samples.dom() == Set::<Labels>::empty().insert(
                seq![("version"@, m.version@), ("mode"@, m.mode@)],
            ) && samples[seq![("version"@, m.version@), ("mode"@, m.mode@)]] == 1
        }),
{
    let own = seq![("version"@, m.version@), ("mode"@, m.mode@)];
    let info: Map<Labels, i64> = Map::empty().insert(own, 1i64);
    assert(info.dom() =~= Set::<Labels>::empty().insert(own));
}

} // verus!
