//! What holds of what comes back: of listeners, sources, keys and warnings.

use crate::config::assemble;
use crate::config::ech;
use crate::config::listener;
use crate::config::listener::{ListenerError, NamedListener};
use crate::config::nameserver;
use crate::config::proxy_registry::{Outside, RebuildError, RebuildResult};
use crate::config::raw::{RawConfig, RawRuleProvider, RawTun};
use crate::config::rule_provider;
use crate::config::rule_provider::{ReadBytes, Source, SourceView};
use crate::config::tun;
use crate::config::yaml;
use crate::config::yaml::{Options, Yaml};
use crate::number;
use crate::text;
use crate::text_laws;
use vstd::prelude::*;
use vstd::string::*;
use vstd::utf8::*;

verus! {

/// The listeners that are built are those of the configuration, all of them or none; no
/// two have one name or one port.
pub proof fn law_listeners_come_back_whole(
    raw: &RawConfig,
    bind: &str,
    sni: bool,
    r: Result<Vec<NamedListener>, ListenerError>,
)
    requires
        call_ensures(listener::build_named_listeners, (raw, bind, sni), r),
    ensures
        r is Ok <==> listener::listeners_of(*raw, bind@, sni) is Ok,
        r matches Ok(v) ==> v@.len() == listener::listeners_of(*raw, bind@, sni)->Ok_0.len()
            && forall|i: int|
            0 <= i < v@.len() ==> (#[trigger] v@[i])@ == listener::listeners_of(
                *raw,
                bind@,
                sni,
            )->Ok_0[i],
        r matches Err(e) ==> e@ == listener::listeners_of(*raw, bind@, sni)->Err_0,
        r matches Ok(v) ==> forall|i: int, j: int|
            0 <= i < j < v@.len() ==> (#[trigger] v@[i])@.name != (#[trigger] v@[j])@.name
                && v@[i]@.port != v@[j]@.port,
{
    if let Ok(v) = r {
        let w = listener::listener_views(v@);
        assert(w.len() == v@.len());
        assert forall|i: int, j: int| 0 <= i < j < v@.len() implies (#[trigger] v@[i])@.name != (
        #[trigger] v@[j])@.name && v@[i]@.port != v@[j]@.port by {
            assert(w[i] == v@[i]@ && w[j] == v@[j]@);
        }
        assert forall|i: int| 0 <= i < v@.len() implies (#[trigger] v@[i])@
            == listener::listeners_of(*raw, bind@, sni)->Ok_0[i] by {
            assert(w[i] == v@[i]@);
        }
    }
}

/// A rebuild tells of every source of rules where it has its rules from, in order.
pub proof fn law_rebuilds_tell_of_every_source(
    raw: &RawConfig,
    cache_dir: Option<&str>,
    resolver: bool,
    outside: &Outside,
    r: (Result<RebuildResult, RebuildError>, Vec<Result<Source, String>>),
    i: int,
)
    requires
        call_ensures(
            assemble::rebuild_from_raw_with_cache_dir,
            (raw, cache_dir, resolver, outside),
            r,
        ),
        0 <= i < assemble::rule_sources_in(*raw).len(),
    ensures
        r.1@.len() == assemble::rule_sources_in(*raw).len(),
        ({
            let x = assemble::rule_sources_in(*raw)[i];
            let from = rule_provider::source_of(
                x.0@,
                x.1,
                rule_provider::opt_str_view(cache_dir),
            );
            &&& r.1@[i] is Ok <==> from is Ok
            &&& r.1@[i] matches Ok(s) ==> from == Ok::<SourceView, Seq<char>>(s@)
        }),
{
    let a = r.1@.map_values(|s: Result<Source, String>| assemble::source_result(s));
    let b = assemble::rule_sources(
        assemble::rule_sources_in(*raw),
        rule_provider::opt_str_view(cache_dir),
    );
    assert(a.len() == r.1@.len());
    assert(b.len() == assemble::rule_sources_in(*raw).len());
    assert(a[i] == b[i]);
    assert(a[i] == assemble::source_result(r.1@[i]));
}

/// A document is text, behind the mark that it may begin with; anything else is refused.
pub proof fn law_documents_are_text(path: &str, bytes: &Vec<u8>, r: Result<String, String>)
    requires
        call_ensures(assemble::decode_document, (path, bytes), r),
    ensures
        r is Ok <==> valid_utf8(assemble::without_mark(bytes@)),
        r matches Ok(t) ==> t@ == decode_utf8(assemble::without_mark(bytes@)),
{
}

/// A source that is kept elsewhere gives what was read of it, where something was; one
/// that stands in the configuration gives nothing here.
pub proof fn law_what_is_read_of_a_source(
    p: (String, RawRuleProvider),
    cache_dir: Option<Seq<char>>,
    read: ReadBytes,
)
    ensures
        ({
            let from = rule_provider::source_of(p.0@, p.1, cache_dir);
            let got = rule_provider::payload_of(p, cache_dir, read);
            &&& got is Some <==> (from matches Ok(s) && (s is File || s is Http)) && (
            read matches Ok(x) && x is Some)
            &&& got matches Some(b) ==> (read matches Ok(Some(v)) && b == v@)
        }),
{
}

/// A payload comes from a source of its name that was read.
pub proof fn law_payloads_come_from_sources(
    p: Seq<(String, RawRuleProvider)>,
    cache_dir: Option<Seq<char>>,
    read: Seq<ReadBytes>,
    n: nat,
    entry: (Seq<char>, Seq<u8>),
)
    requires
        n <= p.len(),
        p.len() == read.len(),
        rule_provider::payload_from(p, cache_dir, read, n, entry),
    ensures
        exists|i: int|
            0 <= i < n && (#[trigger] p[i]).0@ == entry.0 && (read[i] matches Ok(Some(b)) && b@
                == entry.1),
{
    let i = choose|i: int|
        0 <= i < n && (#[trigger] p[i]).0@ == entry.0 && rule_provider::payload_of(
            p[i],
            cache_dir,
            read[i],
        ) == Some(entry.1);
    law_what_is_read_of_a_source(p[i], cache_dir, read[i]);
    assert(p[i].0@ == entry.0);
}

proof fn lemma_entry_at(m: Seq<(Yaml, Yaml)>, k: Seq<char>, from: int)
    requires
        0 <= from,
    ensures
        ech::entry_at(m, k, from) matches Some(i) ==> from <= i < m.len() && yaml::is_text(
            m[i].0,
            k,
        ),
        ech::entry_at(m, k, from) is None ==> forall|i: int|
            from <= i < m.len() ==> !yaml::is_text((#[trigger] m[i]).0, k),
    decreases m.len() - from,
{
    if from < m.len() {
        lemma_entry_at(m, k, from + 1);
    }
}

/// Keys are put under the one name: every other entry stays, and none is lost.
pub proof fn law_keys_are_put_under_their_name(
    m: Seq<(Yaml, Yaml)>,
    n: Seq<(Yaml, Yaml)>,
    t: Seq<char>,
    j: int,
)
    requires
        ech::config_put(m, n, t),
        0 <= j < m.len(),
    ensures
        m.len() <= n.len() <= m.len() + 1,
        !yaml::is_text(m[j].0, "config"@) ==> n[j] == m[j],
        n[j].0 == m[j].0,
        exists|i: int|
            0 <= i < n.len() && yaml::is_text((#[trigger] n[i]).0, "config"@) && yaml::str_of(
                n[i].1,
            ) == Some(t),
{
    lemma_entry_at(m, "config"@, 0);
    match ech::entry_at(m, "config"@, 0) {
        Some(k) => {
            assert(yaml::is_text(n[k].0, "config"@));
            if j != k {
                assert(n[j] == m[j]);
            }
        },
        None => {
            assert(n.take(m.len() as int)[j] == n[j]);
            assert(n[n.len() - 1] == n.last());
        },
    }
}

/// Keys are put into the options that ask for them and whose lookup gave some; all other
/// options stay as they are.
pub proof fn law_who_gets_keys(
    o: Seq<Options>,
    fetched: Seq<Option<Vec<u8>>>,
    p: Seq<Options>,
    i: int,
)
    requires
        ech::resolved_as(o, fetched, p),
        0 <= i < o.len(),
    ensures
        p.len() == o.len(),
        fetched[i] is None || ech::ech_query(o[i]@) is None ==> p[i] == o[i],
        fetched[i] is Some && ech::ech_query(o[i]@) is Some ==> (yaml::opt_str(
            yaml::opt_entry(yaml::option(p[i]@, "ech-opts"@), "config"@),
        ) matches Some(t) && crate::codec::decodes_to(t, fetched[i]->0@)),
{
    if fetched[i] is Some && ech::ech_query(o[i]@) is Some {
        let t = crate::codec::base64_encoded(fetched[i]->0@);
        assert(ech::keys_put(o[i]@, p[i]@, t));
        ech::law_keys_are_read_back(o[i]@, p[i]@, t);
    }
}

/// Of a list with commas the parts that say something are kept, without the blanks around
/// them and in order.
pub proof fn law_empty_parts_are_left_out(p: Seq<Seq<char>>, x: Seq<char>)
    ensures
        nameserver::filled_parts(Seq::empty()).len() == 0,
        text::trimmed(x).len() == 0 ==> nameserver::filled_parts(p.push(x))
            == nameserver::filled_parts(p),
        text::trimmed(x).len() > 0 ==> nameserver::filled_parts(p.push(x))
            == nameserver::filled_parts(p).push(text::trimmed(x)),
{
    assert(p.push(x).drop_last() =~= p);
}

/// What asks for the port of the resolver is taken over: any target at port 53, and no
/// target at another.
pub proof fn law_what_is_taken_over(host: Seq<char>, n: nat)
    ensures
        tun::hijacks(host.push(':') + number::decimal(n)) <==> n == 53,
        tun::hijacks(number::decimal(n)) <==> n == 53,
{
    let d = number::decimal(n);
    number::lemma_decimal(n);
    text_laws::law_only_digits_are_numbers(d, n, u16::MAX as nat);
    assert(!d.contains(':')) by {
        if d.contains(':') {
            let i = choose|i: int| 0 <= i < d.len() && d[i] == ':';
            assert(number::is_digit(d[i]));
        }
    }
    text::lemma_one_part(d, ':');
    text::lemma_parts_of_two(host, d, ':');
    assert(host.push(':') + d =~= host + seq![':'] + d);
    let p = text::parts(host, ':') + seq![d];
    assert(p.last() == d);
    text_laws::law_join_undoes_split(host, ':');
}

/// The options that mean nothing here are told, each by its name, and the targets that
/// are not taken over.
pub proof fn law_what_is_warned_of(r: RawTun, name: Seq<char>, option: Option<Yaml>)
    ensures
        option is None ==> tun::unsupported(name, option).len() == 0,
        option is Some ==> tun::unsupported(name, option).len() == 1 && text::has_substring(
            tun::unsupported(name, option)[0],
            name,
        ),
        r.stack is None && r.strict_route is None && r.auto_detect_interface is None
            && r.auto_redirect is None && r.inet6_address is None
            && r.endpoint_independent_nat is None && r.mtu_v6 is None && r.route_address is None
            && r.route_exclude_address is None && r.include_uid is None && r.exclude_uid is None
            <==> tun::all_unsupported(r).len() == 0,
{
    if option is Some {
        let m = tun::unsupported(name, option)[0];
        let at = "tun."@.len() as int;
        assert(m.subrange(at, at + name.len()) =~= name);
        assert(text::occurs_at(m, at, name));
    }
}

/// Each option that means nothing here is told under its own name.
pub proof fn law_each_option_is_warned_of_by_name(r: RawTun)
    ensures
        r.stack is Some ==> tun::all_unsupported(r).contains(tun::unsupported_message("stack"@)),
        r.strict_route is Some ==> tun::all_unsupported(r).contains(
            tun::unsupported_message("strict-route"@),
        ),
        r.mtu_v6 is Some ==> tun::all_unsupported(r).contains(tun::unsupported_message("mtu-v6"@)),
        r.exclude_uid is Some ==> tun::all_unsupported(r).contains(
            tun::unsupported_message("exclude-uid"@),
        ),
        r.include_uid is Some ==> tun::all_unsupported(r).contains(
            tun::unsupported_message("include-uid"@),
        ),
        r.auto_detect_interface is Some ==> tun::all_unsupported(r).contains(
            tun::unsupported_message("auto-detect-interface"@),
        ),
        r.auto_redirect is Some ==> tun::all_unsupported(r).contains(
            tun::unsupported_message("auto-redirect"@),
        ),
        r.inet6_address is Some ==> tun::all_unsupported(r).contains(
            tun::unsupported_message("inet6-address"@),
        ),
        r.endpoint_independent_nat is Some ==> tun::all_unsupported(r).contains(
            tun::unsupported_message("endpoint-independent-nat"@),
        ),
        r.route_address is Some ==> tun::all_unsupported(r).contains(
            tun::unsupported_message("route-address"@),
        ),
        r.route_exclude_address is Some ==> tun::all_unsupported(r).contains(
            tun::unsupported_message("route-exclude-address"@),
        ),
{
    let a = tun::unsupported("stack"@, r.stack);
    let b = tun::unsupported("strict-route"@, r.strict_route);
    let c = tun::unsupported("auto-detect-interface"@, r.auto_detect_interface);
    let d = tun::unsupported("auto-redirect"@, r.auto_redirect);
    let e = tun::unsupported("inet6-address"@, r.inet6_address);
    let f = tun::unsupported("endpoint-independent-nat"@, r.endpoint_independent_nat);
    let g = tun::unsupported("mtu-v6"@, r.mtu_v6);
    let h = tun::unsupported("route-address"@, r.route_address);
    let i = tun::unsupported("route-exclude-address"@, r.route_exclude_address);
    let j = tun::unsupported("include-uid"@, r.include_uid);
    let k = tun::unsupported("exclude-uid"@, r.exclude_uid);
    lemma_in_sum(a, b);
    lemma_in_sum(a + b, c);
    lemma_in_sum(a + b + c, d);
    lemma_in_sum(a + b + c + d, e);
    lemma_in_sum(a + b + c + d + e, f);
    lemma_in_sum(a + b + c + d + e + f, g);
    lemma_in_sum(a + b + c + d + e + f + g, h);
    lemma_in_sum(a + b + c + d + e + f + g + h, i);
    lemma_in_sum(a + b + c + d + e + f + g + h + i, j);
    lemma_in_sum(a + b + c + d + e + f + g + h + i + j, k);
    lemma_warned("stack"@, r.stack);
    lemma_warned("strict-route"@, r.strict_route);
    lemma_warned("auto-detect-interface"@, r.auto_detect_interface);
    lemma_warned("auto-redirect"@, r.auto_redirect);
    lemma_warned("inet6-address"@, r.inet6_address);
    lemma_warned("endpoint-independent-nat"@, r.endpoint_independent_nat);
    lemma_warned("mtu-v6"@, r.mtu_v6);
    lemma_warned("route-address"@, r.route_address);
    lemma_warned("route-exclude-address"@, r.route_exclude_address);
    lemma_warned("include-uid"@, r.include_uid);
    lemma_warned("exclude-uid"@, r.exclude_uid);
}

proof fn lemma_warned(name: Seq<char>, option: Option<Yaml>)
    ensures
        option is Some ==> tun::unsupported(name, option).contains(tun::unsupported_message(name)),
{
    if option is Some {
        assert(tun::unsupported(name, option)[0] == tun::unsupported_message(name));
    }
}

proof fn lemma_in_sum(a: Seq<Seq<char>>, b: Seq<Seq<char>>)
    ensures
        forall|x: Seq<char>| a.contains(x) || b.contains(x) ==> #[trigger] (a + b).contains(x),
{
    assert forall|x: Seq<char>| a.contains(x) || b.contains(x) implies #[trigger] (a + b).contains(
        x,
    ) by {
        if a.contains(x) {
            let i = choose|i: int| 0 <= i < a.len() && a[i] == x;
            assert((a + b)[i] == x);
        } else {
            let i = choose|i: int| 0 <= i < b.len() && b[i] == x;
            assert((a + b)[a.len() + i] == x);
        }
    }
}

/// Targets are looked at one by one, and those that are not taken over are told.
pub proof fn law_targets_are_told_one_by_one(entries: Seq<Seq<char>>, x: Seq<char>)
    ensures
        tun::ignored_hijacks(Seq::empty()).len() == 0,
        tun::hijacks(x) ==> tun::ignored_hijacks(entries.push(x)) == tun::ignored_hijacks(entries),
        !tun::hijacks(x) ==> tun::ignored_hijacks(entries.push(x)) == tun::ignored_hijacks(
            entries,
        ).push(tun::hijack_message(x)),
        text::has_substring(tun::hijack_message(x), x),
{
    assert(entries.push(x).drop_last() =~= entries);
    let m = tun::hijack_message(x);
    let at = "tun.dns-hijack: entry '"@.len() as int;
    assert(m.subrange(at, at + x.len()) =~= x);
    assert(text::occurs_at(m, at, x));
}

/// The payloads of more and more sources: each source that was read adds its own behind
/// the others, under its name.
pub proof fn law_payloads_are_gathered_in_order(
    p: Seq<(String, RawRuleProvider)>,
    cache_dir: Option<Seq<char>>,
    read: Seq<ReadBytes>,
    n: nat,
)
    requires
        n < p.len(),
        p.len() == read.len(),
    ensures
        rule_provider::payloads_of(p, cache_dir, read, 0).len() == 0,
        rule_provider::payload_of(p[n as int], cache_dir, read[n as int]) matches Some(b)
            ==> rule_provider::payloads_of(p, cache_dir, read, n + 1)
            == rule_provider::payloads_of(p, cache_dir, read, n).push((p[n as int].0@, b)),
        rule_provider::payload_of(p[n as int], cache_dir, read[n as int]) is None
            ==> rule_provider::payloads_of(p, cache_dir, read, n + 1)
            == rule_provider::payloads_of(p, cache_dir, read, n),
{
}

} // verus!
