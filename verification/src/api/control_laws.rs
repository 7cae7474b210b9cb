//! What holds of the control interface: who may use it, and what changes through it.

use crate::api::auth;
use crate::api::configs;
use crate::api::configs::{ConfigResponse, NewConfig, Reload, Taken, Takeover, Update};
use crate::api::connections;
use crate::api::delay;
use crate::api::delay::{GroupPlan, GroupState, Measured, Probe};
use crate::api::dns;
use crate::api::dns::{DnsAnswer, DnsResultEntry, KnownName, Question, RecordView};
use crate::api::reply::Reply;
use crate::config::assemble;
use crate::config::assemble::TunnelMode;
use crate::config::proxy_registry;
use crate::config::raw::RawConfig;
use crate::net;
use crate::net::IpAddr;
use crate::number;
use crate::text;
use crate::text_laws;
use vstd::prelude::*;
use vstd::string::*;

verus! {

/// With a secret, whoever says that they bear it passes exactly where what they bear is
/// the secret, whatever else they say. Whoever bears nothing passes exactly with the
/// secret as the token of a web socket.
pub proof fn law_bearers_of_the_secret_pass(
    secret: Seq<char>,
    borne: Seq<char>,
    other: Option<Seq<char>>,
    upgrade: Option<Seq<char>>,
    token: Option<Seq<char>>,
)
    requires
        secret.len() > 0,
        other matches Some(a) ==> !"Bearer "@.is_prefix_of(a),
    ensures
        auth::passes(Some(secret), Some("Bearer "@ + borne), upgrade, token) <==> borne == secret,
        auth::passes(Some(secret), other, upgrade, token) <==> token == Some(secret) && (
        upgrade matches Some(u) && text::ascii_lower(u) == "websocket"@),
        !auth::passes(Some(secret), other, None, token),
{
    let a = "Bearer "@ + borne;
    assert(a.subrange(0, "Bearer "@.len() as int) =~= "Bearer "@);
    assert("Bearer "@.is_prefix_of(a));
    assert(a.skip("Bearer "@.len() as int) =~= borne);
}

/// Whoever does not pass is told so, and nobody else is.
pub proof fn law_who_is_turned_away(
    secret: Option<&str>,
    authorization: Option<&str>,
    upgrade: Option<&str>,
    token: Option<&str>,
    r: Result<(), Reply>,
)
    requires
        call_ensures(auth::require_auth_ws, (secret, authorization, upgrade, token), r),
    ensures
        r is Ok <==> auth::passes(
            auth::opt(secret),
            auth::opt(authorization),
            auth::opt(upgrade),
            auth::opt(token),
        ),
        secret is None ==> r is Ok,
        r matches Err(e) ==> e.status == 401 && e@.message == Some("Unauthorized"@),
{
}

/// What is told of the configuration is what it holds, with the usual values where it is
/// silent.
pub proof fn law_what_is_told_of_the_configuration(
    raw: &RawConfig,
    mode: TunnelMode,
    c: ConfigResponse,
)
    requires
        call_ensures(configs::get_configs, (raw, mode), c),
    ensures
        c.mode@ == (match mode {
            TunnelMode::Global => "global"@,
            TunnelMode::Rule => "rule"@,
            TunnelMode::Direct => "direct"@,
        }),
        raw.log_level matches Some(l) ==> c.log_level@ == l@,
        raw.log_level is None ==> c.log_level@ == "info"@,
        c.mixed_port == raw.mixed_port,
        c.socks_port == raw.socks_port,
        c.http_port == raw.port,
        c.redir_port == 0,
        raw.tproxy_port matches Some(p) ==> c.tproxy_port == p,
        raw.tproxy_port is None ==> c.tproxy_port == 0,
        raw.external_controller matches Some(x) ==> (c.external_controller matches Some(y) && x@
            == y@),
        raw.external_controller is None ==> c.external_controller is None,
        c.allow_lan <==> raw.allow_lan == Some(true),
        raw.bind_address matches Some(b) ==> c.bind_address@ == b@,
        raw.bind_address is None ==> c.bind_address@ == "0.0.0.0"@,
        c.ipv6 <==> raw.ipv6 == Some(true),
{
}

/// An update is understood where what it names exists; what it does not name is left out.
pub proof fn law_updates_are_understood(
    mode: Option<String>,
    level: Option<String>,
    r: Result<Update, Reply>,
)
    requires
        call_ensures(configs::update_configs, (mode, level), r),
    ensures
        mode is None && level is None ==> r is Ok,
        r matches Ok(u) ==> u.log_level == level && (u.mode is Some <==> mode is Some) && (
        mode matches Some(m) ==> assemble::mode_named(m@) == u.mode),
        r matches Err(e) ==> e.status == 400 && ((mode matches Some(m) && assemble::mode_named(
            m@,
        ) is None) || (level matches Some(l) && !configs::names_level(l@))),
{
}

/// The levels go by their names, whatever the case of the letters, and nothing else is a
/// level.
pub proof fn law_levels_go_by_names(s: Seq<char>, t: Seq<char>)
    ensures
        text::ascii_lower(s) == text::ascii_lower(t) ==> configs::names_level(s)
            == configs::names_level(t),
        configs::names_level("debug"@),
        configs::names_level("info"@),
        configs::names_level("warning"@),
        configs::names_level("warn"@),
        configs::names_level("error"@),
        configs::names_level("silent"@),
        !configs::names_level(Seq::empty()),
{
    reveal_strlit("debug");
    reveal_strlit("info");
    reveal_strlit("warning");
    reveal_strlit("warn");
    reveal_strlit("error");
    reveal_strlit("silent");
    assert(text::ascii_lower("debug"@) =~= "debug"@);
    assert(text::ascii_lower("info"@) =~= "info"@);
    assert(text::ascii_lower("warning"@) =~= "warning"@);
    assert(text::ascii_lower("warn"@) =~= "warn"@);
    assert(text::ascii_lower("error"@) =~= "error"@);
    assert(text::ascii_lower("silent"@) =~= "silent"@);
    assert(text::ascii_lower(Seq::empty()).len() == 0);
    assert("debug"@.len() == 5 && "info"@.len() == 4 && "warning"@.len() == 7 && "warn"@.len() == 4
        && "error"@.len() == 5 && "silent"@.len() == 6);
}

/// An update changes the mode and the level that it names and nothing else; where the log
/// cannot follow, nothing changes at all and the reason is told.
pub proof fn law_updates_change_what_they_name(
    before: RawConfig,
    mode_before: TunnelMode,
    u: Update,
    reloaded: Result<(), String>,
    after: RawConfig,
    mode_after: TunnelMode,
    r: Reply,
)
    requires
        configs::carried_out(before, mode_before, u, reloaded, after, mode_after, r),
    ensures
        r.status == 204 || r.status == 500,
        r.status == 500 <==> u.log_level is Some && reloaded is Err,
        r.status == 500 ==> after == before && mode_after == mode_before && r@.message == Some(
            reloaded->Err_0@,
        ),
        r.status == 204 ==> r.message is None,
        r.status == 204 && u.mode is None ==> mode_after == mode_before && text::opt_view(
            after.mode,
        ) == text::opt_view(before.mode),
        r.status == 204 && u.log_level is None ==> after.log_level == before.log_level,
        r.status == 204 ==> (u.log_level matches Some(l) ==> after.log_level == Some(l)),
        r.status == 204 ==> (u.mode matches Some(m) ==> mode_after == m && (
        after.mode matches Some(t) && assemble::lower_mode(t@) == Some(m))),
        after == (RawConfig { mode: after.mode, log_level: after.log_level, ..before }),
{
    if let Some(m) = u.mode {
        assemble::law_modes_are_read_back(m);
    }
}

/// The same, of the configuration alone.
pub proof fn law_updates_leave_the_rest(
    before: RawConfig,
    u: Update,
    reloaded: Result<(), String>,
    after: RawConfig,
    r: Reply,
)
    requires
        configs::updated(before, u, reloaded, after, r),
    ensures
        after == (RawConfig { mode: after.mode, log_level: after.log_level, ..before }),
        u.log_level is Some && reloaded is Err ==> after == before && r.status == 500,
        !(u.log_level is Some && reloaded is Err) ==> r.status == 204 && r.message is None && (
        u.log_level is Some ==> after.log_level == u.log_level) && (u.log_level is None
            ==> after.log_level == before.log_level) && (u.mode is None ==> text::opt_view(
            after.mode,
        ) == text::opt_view(before.mode)) && (u.mode matches Some(m) ==> (
        after.mode matches Some(t) && assemble::lower_mode(t@) == Some(m))),
{
    if let Some(m) = u.mode {
        assemble::law_modes_are_read_back(m);
    }
}

/// A path counts before a payload, which is text that was encoded; a request with neither
/// is refused.
pub proof fn law_what_a_new_configuration_comes_from(
    path: Option<String>,
    payload: Option<String>,
    r: Result<NewConfig, Reply>,
)
    requires
        call_ensures(configs::put_configs, (path, payload), r),
    ensures
        path matches Some(p) ==> (r matches Ok(NewConfig::File(f)) && f == p),
        path is None && payload is None ==> (r matches Err(e) && e.status == 400),
        path is None ==> (payload matches Some(b) ==> (r matches Ok(NewConfig::Text(t)) ==> (
        crate::codec::base64_decoded(b@) matches Ok(bytes) && vstd::utf8::valid_utf8(bytes) && t@
            == vstd::utf8::decode_utf8(bytes))) && (r is Ok <==> (crate::codec::base64_decoded(
            b@,
        ) matches Ok(bytes) && vstd::utf8::valid_utf8(bytes)))),
        r matches Ok(NewConfig::File(_)) ==> path is Some,
        r matches Err(e) ==> e.status == 400 && e.message is Some,
{
}

/// A payload that was decoded is the text of the configuration exactly where it is text.
pub proof fn law_payloads_are_text(decoded: Result<Vec<u8>, String>, r: Result<NewConfig, Reply>)
    requires
        call_ensures(configs::payload_config, (decoded,), r),
    ensures
        r is Ok <==> (decoded matches Ok(b) && vstd::utf8::valid_utf8(b@)),
        r matches Ok(NewConfig::Text(t)) ==> t@ == vstd::utf8::decode_utf8(decoded->Ok_0@),
        !(r matches Ok(NewConfig::File(_))),
        r matches Err(e) ==> e.status == 400,
{
}

/// Only the one word forces.
pub proof fn law_what_forces(force: Option<&str>, r: bool)
    requires
        call_ensures(configs::forced, (force,), r),
    ensures
        r <==> (force matches Some(f) && f@ == seq!['t', 'r', 'u', 'e']),
{
    reveal_strlit("true");
    assert("true"@ =~= seq!['t', 'r', 'u', 'e']);
}

/// A new configuration that is forced is taken though it could not be built, and then
/// nothing of it runs; one that is not forced is refused then. One that could be built is
/// taken as it was built. The mode is the one it names.
pub proof fn law_what_force_does(
    raw: &RawConfig,
    built: Result<(), String>,
    force: bool,
    r: Result<Reload, Reply>,
)
    requires
        call_ensures(configs::after_rebuilding, (raw, built, force), r),
    ensures
        r is Ok <==> built is Ok || force,
        r matches Ok(l) ==> (l.take_built <==> built is Ok) && (raw.mode is None ==> l.mode is None)
            && (raw.mode matches Some(m) ==> l.mode == assemble::mode_named(m@)),
        r matches Err(e) ==> e.status == 400,
{
}

/// A new configuration is refused where it cannot be read, or is no configuration, or
/// cannot be built and is not forced, and is taken over otherwise. Refused, it leaves
/// everything as it was.
pub proof fn law_when_a_new_configuration_is_taken(
    path: Option<String>,
    payload: Option<String>,
    read: Result<String, String>,
    parsed: Result<RawConfig, String>,
    built: Result<(), String>,
    force: bool,
    r: (Reply, Takeover),
)
    requires
        call_ensures(configs::put_outcome, (path, payload, read, parsed, built, force), r),
    ensures
        r.0.status == 204 || r.0.status == 400,
        r.0.status == 204 <==> r.1.close_connections,
        r.0.status == 204 <==> {
            &&& path is Some || payload is Some
            &&& path is Some ==> read is Ok
            &&& path is None ==> configs::payload_text(payload->0@) is Ok
            &&& parsed is Ok
            &&& built is Ok || force
        },
        r.0.status == 400 ==> r.1.proxies is Untouched && r.1.rules is Untouched
            && r.1.mode is None && r.1.raw is None && r.0.message is Some,
        r.0.status == 204 ==> r.1.raw == Some(parsed->Ok_0) && (built is Ok ==> r.1.proxies is Built
            && r.1.rules is Built) && (built is Err ==> r.1.proxies is Nothing
            && r.1.rules is Nothing),
        r.0.status == 204 ==> (parsed->Ok_0.mode is None ==> r.1.mode is None) && (
        parsed->Ok_0.mode matches Some(m) ==> r.1.mode == assemble::mode_named(m@)),
{
}

/// What is read or parsed goes on as it is, and a failure is told as a bad request.
pub proof fn law_failures_are_bad_requests(
    read: Result<String, String>,
    text: Result<String, Reply>,
    parsed: Result<RawConfig, String>,
    raw: Result<RawConfig, Reply>,
)
    requires
        call_ensures(configs::after_reading, (read,), text),
        call_ensures(configs::after_parsing, (parsed,), raw),
    ensures
        read matches Ok(t) ==> text == Ok::<String, Reply>(t),
        read matches Err(m) ==> (text matches Err(e) && e.status == 400 && e@.message == Some(m@)),
        parsed matches Ok(c) ==> raw == Ok::<RawConfig, Reply>(c),
        parsed matches Err(m) ==> (raw matches Err(e) && e.status == 400 && (
        e@.message matches Some(t) && m@.is_suffix_of(t))),
{
    if let Err(m) = parsed {
        if let Err(e) = raw {
            let t = "config parse error: "@ + m@;
            assert(t.subrange(t.len() - m@.len(), t.len() as int) =~= m@);
        }
    }
}

/// What a takeover does to each part.
pub proof fn law_parts_are_taken<T>(before: T, built: T, nothing: T)
    ensures
        configs::part_after(Taken::Untouched, before, built, nothing) == before,
        configs::part_after(Taken::Built, before, built, nothing) == built,
        configs::part_after(Taken::Nothing, before, built, nothing) == nothing,
{
}

proof fn lemma_digits_stay(n: nat)
    ensures
        text::trimmed(number::decimal(n)) == number::decimal(n),
{
    number::lemma_decimal(n);
    let d = number::decimal(n);
    let (lo, hi) = text_laws::law_trimming_takes_white_space_off_the_ends(d);
    assert(number::is_digit(d[0]) && number::is_digit(d[d.len() - 1]));
    text_laws::law_trimmed_texts_stay(d);
}

/// A measurement may take from one to 65535 milliseconds, with white space around the
/// number or not, and no other time.
pub proof fn law_how_long_a_measurement_may_take(n: nat, t: Seq<char>)
    ensures
        1 <= n <= 65535 ==> delay::timeout_set(number::decimal(n)) == Some(n),
        n == 0 || n > 65535 ==> delay::timeout_set(number::decimal(n)) is None,
        delay::timeout_set(t) == delay::timeout_set(text::trimmed(t)),
        delay::timeout_set(t) matches Some(m) ==> 1 <= m <= 65535,
        delay::timeout_set(Seq::empty()) is None,
{
    lemma_digits_stay(n);
    text_laws::law_only_digits_are_numbers(Seq::empty(), n, 65535);
    assert(text::trimmed(Seq::empty()) == Seq::<char>::empty());
    let (lo, hi) = text_laws::law_trimming_takes_white_space_off_the_ends(t);
    let d = text::trimmed(t);
    if lo < hi {
        assert(d[0] == t[lo] && d[d.len() - 1] == t[hi - 1]);
    }
    text_laws::law_trimmed_texts_stay(d);
}

/// A measurement is made where an address and a time are given: neither may be missing,
/// and the address is more than white space.
pub proof fn law_when_a_measurement_is_made(
    url: &Option<String>,
    timeout: &Option<String>,
    known: bool,
    r: Result<u64, Reply>,
    own: Result<u64, Reply>,
)
    requires
        call_ensures(delay::parse_delay_params, (url, timeout), r),
        call_ensures(delay::proxy_delay_budget, (url, timeout, known), own),
    ensures
        r is Ok <==> (url matches Some(u) && text::trimmed(u@).len() > 0) && (
        timeout matches Some(t) && delay::timeout_set(t@) is Some),
        r matches Ok(n) ==> delay::timeout_set(timeout->0@) == Some(n as nat),
        r matches Err(e) ==> e.status == 400,
        own is Ok <==> r is Ok && known,
        own matches Ok(n) ==> r == Ok::<u64, Reply>(n),
        own matches Err(e) ==> (if r is Ok {
            e.status == 404
        } else {
            e.status == 400
        }),
{
}

/// A proxy of a provider is measured where the request is right and both are known.
pub proof fn law_when_a_proxy_of_a_provider_is_measured(
    url: &Option<String>,
    timeout: &Option<String>,
    provider_known: bool,
    proxy_known: bool,
    r: Result<u64, Reply>,
    own: Result<u64, Reply>,
)
    requires
        call_ensures(delay::parse_delay_params, (url, timeout), r),
        call_ensures(
            delay::provider_proxy_budget,
            (url, timeout, provider_known, proxy_known),
            own,
        ),
    ensures
        own is Ok <==> r is Ok && provider_known && proxy_known,
        own matches Ok(n) ==> r == Ok::<u64, Reply>(n),
        own matches Err(e) ==> (if r is Ok {
            e.status == 404
        } else {
            e.status == 400
        }),
{
}

/// A delay is told as it was measured; a measurement that took too long and one that
/// failed are told apart.
pub proof fn law_what_measurements_tell(p: Probe, r: Result<u16, Reply>)
    requires
        call_ensures(delay::delay_reply, (p,), r),
    ensures
        r is Ok <==> p is Delay,
        p matches Probe::Delay(d) ==> r == Ok::<u16, Reply>(d),
        p is Timeout ==> (r matches Err(e) && e.status == 504),
        p is Transport ==> (r matches Err(e) && e.status == 503),
{
}

/// The members that are known are measured, in the order they stand.
pub proof fn law_known_members_are_measured(
    names: Seq<Seq<char>>,
    name: Seq<char>,
    known: Seq<Seq<char>>,
)
    ensures
        delay::known_of(Seq::empty(), known).len() == 0,
        known.contains(name) ==> delay::known_of(names.push(name), known) == delay::known_of(
            names,
            known,
        ).push(name),
        !known.contains(name) ==> delay::known_of(names.push(name), known) == delay::known_of(
            names,
            known,
        ),
{
    assert(names.push(name).drop_last() =~= names);
}

/// A group that is measured chooses by itself again where it can.
pub proof fn law_measured_groups_choose_again(
    group: &Option<GroupState>,
    known: &Vec<String>,
    url: &Option<String>,
    timeout: &Option<String>,
    r: Result<GroupPlan, Reply>,
    own: Result<u64, Reply>,
)
    requires
        call_ensures(delay::get_group_delay, (group, known, url, timeout), r),
        call_ensures(delay::parse_delay_params, (url, timeout), own),
    ensures
        r is Ok <==> group is Some && own is Ok,
        r matches Ok(p) ==> own == Ok::<u64, Reply>(p.timeout) && p.unfix == group->0.can_unfix
            && text::views(p.members@) == delay::known_of(
            text::views(group->0.members@),
            text::views(known@),
        ),
        r matches Err(e) ==> (if group is None {
            e.status == 404
        } else {
            e.status == 400
        }),
{
}

proof fn lemma_put_has(s: Seq<(Seq<char>, u16)>, name: Seq<char>, d: u16, x: (Seq<char>, u16))
    requires
        delay::in_order(s),
    ensures
        delay::put(s, name, d).contains(x) <==> x == (name, d) || (x.0 != name && s.contains(x)),
    decreases s.len(),
{
    if s.len() == 0 {
        assert(delay::put(s, name, d)[0] == (name, d));
    } else {
        let r = s.drop_last();
        let l = s.last();
        assert(s[s.len() - 1] == l);
        assert(r.push(l) =~= s);
        lemma_has(r, l, x);
        assert forall|i: int, j: int| 0 <= i < j < r.len() implies proxy_registry::before(
            (#[trigger] r[i]).0,
            (#[trigger] r[j]).0,
        ) by {
            assert(r[i] == s[i] && r[j] == s[j]);
        }
        if l.0 == name {
            lemma_has(r, (name, d), x);
            if r.contains(x) {
                let k = choose|k: int| 0 <= k < r.len() && r[k] == x;
                assert(proxy_registry::before(s[k].0, l.0));
                lemma_never_before_itself(name);
            }
        } else if proxy_registry::before(name, l.0) {
            lemma_put_has(r, name, d, x);
            lemma_has(delay::put(r, name, d), l, x);
        } else {
            lemma_has(s, (name, d), x);
            if s.contains(x) && x.0 == name {
                let k = choose|k: int| 0 <= k < s.len() && s[k] == x;
                assert(s[k].0 == name);
                assert(k < s.len() - 1);
                assert(proxy_registry::before(s[k].0, s[s.len() - 1].0));
            }
        }
    }
}

proof fn lemma_has(d: Seq<(Seq<char>, u16)>, t: (Seq<char>, u16), x: (Seq<char>, u16))
    ensures
        d.push(t).contains(x) <==> d.contains(x) || x == t,
{
    let p = d.push(t);
    if d.contains(x) {
        let i = choose|i: int| 0 <= i < d.len() && d[i] == x;
        assert(p[i] == x);
    }
    if x == t {
        assert(p[d.len() as int] == x);
    }
    if p.contains(x) {
        let i = choose|i: int| 0 <= i < p.len() && p[i] == x;
        if i < d.len() {
            assert(d[i] == x);
        }
    }
}

proof fn lemma_never_before_itself(a: Seq<char>)
    ensures
        !proxy_registry::before(a, a),
    decreases a.len(),
{
    if a.len() > 0 {
        lemma_never_before_itself(a.skip(1));
    }
}

/// Of each member that was measured the last delay is listed, and nothing else is.
pub proof fn law_the_last_delay_is_listed(m: Seq<Measured>, one: Measured, x: (Seq<char>, u16))
    ensures
        delay::delay_list(Seq::empty()).len() == 0,
        delay::delay_list(m.push(one)).contains(x) <==> x == (one.name@, one.delay) || (x.0
            != one.name@ && delay::delay_list(m).contains(x)),
{
    assert(m.push(one).drop_last() =~= m);
    delay::law_delays_are_in_order(m);
    lemma_put_has(delay::delay_list(m), one.name@, one.delay, x);
}

/// A group has timed out as soon as one of its members has.
pub proof fn law_one_timeout_is_enough(m: Seq<Measured>, one: Measured)
    ensures
        !delay::any_timed_out(Seq::empty()),
        delay::any_timed_out(m.push(one)) <==> one.timed_out || delay::any_timed_out(m),
{
    let p = m.push(one);
    if one.timed_out {
        assert(p[m.len() as int].timed_out);
    }
    if delay::any_timed_out(m) {
        let i = choose|i: int| 0 <= i < m.len() && (#[trigger] m[i]).timed_out;
        assert(p[i].timed_out);
    }
    if delay::any_timed_out(p) {
        let i = choose|i: int| 0 <= i < p.len() && (#[trigger] p[i]).timed_out;
        if i < m.len() {
            assert(m[i].timed_out);
        }
    }
}

/// The resolver is asked for a whole name: one that ends in a dot stays, and any other
/// gets one.
pub proof fn law_names_are_asked_whole(name: Seq<char>)
    ensures
        dns::dotted_end(name).last() == '.',
        dns::dotted_end(dns::dotted_end(name)) == dns::dotted_end(name),
        name.len() > 0 && name.last() == '.' ==> dns::dotted_end(name) == name,
        name.len() == 0 || name.last() != '.' ==> dns::dotted_end(name) == name.push('.'),
{
    reveal_strlit(".");
    assert(name + "."@ =~= name.push('.'));
}

/// A question is asked exactly where the resolver is on and the type exists; addresses of
/// the shorter kind are asked for where no type is named.
pub proof fn law_which_questions_are_asked(
    raw: &RawConfig,
    name: &str,
    qtype: &Option<String>,
    r: Result<Question, Reply>,
)
    requires
        call_ensures(dns::dns_query_get, (raw, name, qtype), r),
    ensures
        r is Ok ==> (raw.dns matches Some(d) && d.enable == Some(true)),
        r matches Ok(q) ==> q.fqdn@ == dns::dotted_end(name@) && dns::record_code(
            dns::type_asked(text::opt_view(*qtype)),
        ) == Some(q.qtype),
        r matches Err(e) ==> (if dns::resolver_on(*raw) {
            e.status == 400 && dns::record_code(dns::type_asked(text::opt_view(*qtype))) is None
        } else {
            e.status == 500
        }),
        dns::resolver_on(*raw) <==> (raw.dns matches Some(d) && d.enable == Some(true)),
        dns::type_asked(None) == seq!['A'],
        qtype matches Some(t) ==> dns::type_asked(text::opt_view(*qtype)) == text::ascii_upper(t@),
{
    reveal_strlit("A");
    assert(dns::type_asked(None) =~= seq!['A']);
}

/// Of the addresses that were found those of the kind that was asked for are answered, in
/// the order they were found, each for a minute.
pub proof fn law_addresses_are_answered(ips: Seq<IpAddr>, ip: IpAddr, q: Question)
    ensures
        dns::address_records(Seq::empty(), q).len() == 0,
        (ip is V4 && q.qtype == 1) || (ip is V6 && q.qtype == 28) ==> dns::address_records(
            ips.push(ip),
            q,
        ) == dns::address_records(ips, q).push(
            RecordView { name: q.fqdn@, rtype: q.qtype, ttl: 60, data: net::ip_text(ip) },
        ),
        !((ip is V4 && q.qtype == 1) || (ip is V6 && q.qtype == 28)) ==> dns::address_records(
            ips.push(ip),
            q,
        ) == dns::address_records(ips, q),
{
    assert(ips.push(ip).drop_last() =~= ips);
}

/// What an answer with addresses says besides.
pub proof fn law_what_answers_say(q: &Question, ips: &Vec<IpAddr>, a: DnsAnswer, asks: bool)
    requires
        call_ensures(dns::address_answer, (q, ips), a),
        call_ensures(dns::asks_for_addresses, (q,), asks),
    ensures
        a.status == 0 && !a.truncated && a.recursion_desired && a.recursion_available
            && !a.authentic_data && !a.checking_disabled,
        dns::records(a.answers@) == dns::address_records(ips@, *q),
        a.authorities@.len() == 0 && a.additionals@.len() == 0,
        asks <==> q.qtype == 1 || q.qtype == 28,
        !asks ==> a.answers@.len() == 0,
{
    assert(dns::records(a.answers@).len() == a.answers@.len());
    if !asks {
        lemma_no_addresses(ips@, *q);
    }
}

proof fn lemma_no_addresses(ips: Seq<IpAddr>, q: Question)
    requires
        q.qtype != 1,
        q.qtype != 28,
    ensures
        dns::address_records(ips, q).len() == 0,
    decreases ips.len(),
{
    if ips.len() > 0 {
        lemma_no_addresses(ips.drop_last(), q);
    }
}

/// As many results are told as are asked for, but never more than 1024, and 256 where
/// nothing is said.
pub proof fn law_how_many_results_are_told(limit: Option<usize>, n: usize)
    requires
        call_ensures(dns::results_limit, (limit,), n),
    ensures
        n <= 1024,
        limit is None ==> n == 256,
        limit matches Some(l) ==> n <= l && (l <= 1024 ==> n == l) && (l > 1024 ==> n == 1024),
{
}

/// A name that is known is told as it is, with all its addresses in order.
pub proof fn law_known_names_are_told(k: KnownName, e: DnsResultEntry)
    requires
        call_ensures(dns::dns_result, (k,), e),
    ensures
        e.name == k.name,
        e.from_server == k.source,
        e.ttl == k.ttl,
        e.ips@.len() == k.ips@.len(),
        forall|i: int|
            0 <= i < k.ips@.len() ==> (#[trigger] e.ips@[i])@ == net::ip_text(k.ips@[i]),
{
    assert(text::views(e.ips@).len() == e.ips@.len());
    assert(dns::ip_texts(k.ips@).len() == k.ips@.len());
    assert forall|i: int| 0 <= i < k.ips@.len() implies (#[trigger] e.ips@[i])@ == net::ip_text(
        k.ips@[i],
    ) by {
        assert(text::views(e.ips@)[i] == dns::ip_texts(k.ips@)[i]);
    }
}

/// Forwarded answers come as they are, and a question without one has failed.
pub proof fn law_forwarded_answers(
    m: Option<DnsAnswer>,
    r: Result<DnsAnswer, Reply>,
    flushed: Result<(), String>,
    f: Reply,
)
    requires
        call_ensures(dns::forwarded_answer, (m,), r),
        call_ensures(dns::flush_fakeip_cache, (flushed,), f),
    ensures
        m matches Some(a) ==> r == Ok::<DnsAnswer, Reply>(a),
        m is None ==> (r matches Err(e) && e.status == 500),
        f.status == (if flushed is Ok {
            204u16
        } else {
            400u16
        }),
        flushed matches Err(e) ==> f@.message == Some(e@),
{
}

/// Connections are told every second, or as often as is said; never without a pause.
pub proof fn law_how_often_connections_are_told(n: nat, s: Seq<char>)
    ensures
        connections::interval(None) == Some(1000nat),
        1 <= n <= u64::MAX ==> connections::interval(Some(number::decimal(n))) == Some(n),
        connections::interval(Some(number::decimal(0))) is None,
        n > u64::MAX ==> connections::interval(Some(number::decimal(n))) is None,
        connections::interval(Some(s)) matches Some(m) ==> 1 <= m <= u64::MAX,
        connections::interval(Some(Seq::empty())) is None,
{
    text_laws::law_only_digits_are_numbers(Seq::empty(), n, u64::MAX as nat);
    text_laws::law_only_digits_are_numbers(Seq::empty(), 0, u64::MAX as nat);
}

/// A bad interval is refused, and any other is taken.
pub proof fn law_intervals_are_taken(raw: &Option<String>, r: Result<u64, Reply>)
    requires
        call_ensures(connections::parse_interval, (raw,), r),
    ensures
        r matches Ok(n) ==> connections::interval(text::opt_view(*raw)) == Some(n as nat),
        r matches Err(e) ==> connections::interval(text::opt_view(*raw)) is None && e.status == 400,
{
}

/// A connection is closed by its name, and what names none is a bad request.
pub proof fn law_connections_go_by_their_names(id: Option<u128>, r: Result<u128, Reply>)
    requires
        call_ensures(connections::connection_named, (id,), r),
    ensures
        id matches Some(u) ==> r == Ok::<u128, Reply>(u),
        id is None ==> (r matches Err(e) && e.status == 400 && e.message is None),
{
}

/// The limit of the group of processes counts before that of the address space, and is
/// nothing where neither is known.
pub proof fn law_which_memory_limit_counts(
    group: Option<Seq<char>>,
    space: Option<u64>,
    n: u64,
)
    ensures
        connections::memory_limit(Some(number::decimal(n as nat)), space) == n,
        connections::memory_limit(Some(number::decimal(n as nat).push('\n')), space) == n,
        connections::memory_limit(Some("max"@), space) == connections::memory_limit(None, space),
        connections::memory_limit(None, Some(n)) == n,
        connections::memory_limit(None, None) == 0,
{
    let d = number::decimal(n as nat);
    number::lemma_decimal(n as nat);
    lemma_digits_stay(n as nat);
    text_laws::law_only_digits_are_numbers(Seq::empty(), n as nat, u64::MAX as nat);
    let e = d.push('\n');
    let (lo, hi) = text_laws::law_trimming_takes_white_space_off_the_ends(e);
    assert(number::is_digit(d[0]) && number::is_digit(d[d.len() - 1]));
    assert(e[0] == d[0]);
    assert(e[d.len() - 1] == d[d.len() - 1]);
    assert(e[d.len() as int] == '\n');
    assert(lo == 0);
    assert(hi == d.len());
    assert(e.subrange(0, hi) =~= d);
    reveal_strlit("max");
    let (a, b) = text_laws::law_trimming_takes_white_space_off_the_ends("max"@);
    text_laws::law_trimmed_texts_stay("max"@);
    text_laws::law_only_digits_are_numbers("max"@, 0, u64::MAX as nat);
    assert("max"@[1] == 'a');
}

/// What is told of the traffic: each number stands behind its name.
pub proof fn law_traffic_is_told_under_its_names(up: i64, down: i64, all_up: i64, all_down: i64)
    ensures
        ({
            let t = connections::traffic_frame(up, down, all_up, all_down);
            &&& text::has_substring(t, "{\"up\":"@ + number::signed(up as int) + ","@)
            &&& text::has_substring(t, "\"down\":"@ + number::signed(down as int) + ","@)
            &&& text::has_substring(t, "\"upTotal\":"@ + number::signed(all_up as int) + ","@)
            &&& text::has_substring(t, "\"downTotal\":"@ + number::signed(all_down as int) + "}"@)
        }),
{
    let t = connections::traffic_frame(up, down, all_up, all_down);
    let (a, b, c, d) = (
        number::signed(up as int),
        number::signed(down as int),
        number::signed(all_up as int),
        number::signed(all_down as int),
    );
    reveal_strlit("{\"up\":");
    reveal_strlit(",\"down\":");
    reveal_strlit(",\"upTotal\":");
    reveal_strlit(",\"downTotal\":");
    reveal_strlit("\"down\":");
    reveal_strlit("\"upTotal\":");
    reveal_strlit("\"downTotal\":");
    reveal_strlit(",");
    reveal_strlit("}");
    let s1 = "{\"up\":"@ + a + ","@;
    assert(t.subrange(0, s1.len() as int) =~= s1);
    assert(text::occurs_at(t, 0, s1));
    let i2: int = 6 + a.len() as int + 1;
    let s2 = "\"down\":"@ + b + ","@;
    assert(t.subrange(i2, i2 + s2.len()) =~= s2);
    assert(text::occurs_at(t, i2, s2));
    let i3: int = i2 + 7 + b.len() as int + 1;
    let s3 = "\"upTotal\":"@ + c + ","@;
    assert(t.subrange(i3, i3 + s3.len()) =~= s3);
    assert(text::occurs_at(t, i3, s3));
    let i4: int = i3 + 10 + c.len() as int + 1;
    let s4 = "\"downTotal\":"@ + d + "}"@;
    assert(t.subrange(i4, i4 + s4.len()) =~= s4);
    assert(text::occurs_at(t, i4, s4));
}

/// What is told of the memory: each number stands behind its name.
pub proof fn law_memory_is_told_under_its_names(inuse: u64, limit: u64)
    ensures
        connections::memory_text(inuse, limit) == "{\"inuse\":"@ + number::decimal(inuse as nat)
            + (",\"oslimit\":"@ + number::decimal(limit as nat).push('}')),
{
    reveal_strlit("}");
    assert(connections::memory_text(inuse, limit) =~= "{\"inuse\":"@ + number::decimal(
        inuse as nat,
    ) + (",\"oslimit\":"@ + number::decimal(limit as nat).push('}')));
}

/// A number below zero is written with a minus before its size, and any other as it is.
pub proof fn law_signs_are_written(n: nat)
    ensures
        number::signed(n as int) == number::decimal(n),
        n > 0 ==> number::signed(-(n as int)) == seq!['-'] + number::decimal(n),
{
}

} // verus!
