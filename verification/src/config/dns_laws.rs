//! What holds of the resolver that a configuration describes.

use crate::cidr;
use crate::cidr::Range;
use crate::config::dns;
use crate::config::dns::{
    DnsMode, DnsPlan, FakeIpPlan, FakeIpStore, FallbackFilter, Gathered, HostsView, SkipperMode,
};
use crate::config::nameserver;
use crate::config::nameserver::{HostOrIp, NameServerEntry, NameServerUrl, Read};
use crate::config::raw::{HostsValue, RawConfig, RawDns, RawFallbackFilter};
use crate::net;
use crate::net::{IpAddr, SocketAddr};
use crate::paths;
use crate::text;
use vstd::prelude::*;
use vstd::string::*;

verus! {

/// The mode of the resolver goes by its name: made-up addresses for `fake-ip`, remembered
/// ones for `redir-host`, and the plain ones for anything else and without a name.
pub proof fn law_modes_have_their_names(s: Seq<char>)
    ensures
        dns::mode_of(None) == DnsMode::Normal,
        dns::mode_of(Some(s)) == DnsMode::FakeIp <==> s == "fake-ip"@,
        dns::mode_of(Some(s)) == DnsMode::Mapping <==> s == "redir-host"@,
        dns::mode_of(Some(s)) == DnsMode::Normal <==> s != "fake-ip"@ && s != "redir-host"@,
        dns::skipper_mode(None) == SkipperMode::BlackList,
        dns::skipper_mode(Some(s)) == SkipperMode::WhiteList <==> s == "whitelist"@ || s
            == "white-list"@,
        dns::skipper_mode(Some(s)) == SkipperMode::BlackList <==> s != "whitelist"@ && s
            != "white-list"@,
{
    reveal_strlit("fake-ip");
    reveal_strlit("redir-host");
    assert("fake-ip"@.len() == 7 && "redir-host"@.len() == 10);
}

/// Without a section that is switched on, names are asked for at one public nameserver
/// and nothing else is set up. Fixed addresses are used all the same, unless the section
/// says otherwise.
pub proof fn law_without_a_section_one_nameserver_is_asked(
    p: DnsPlan,
    raw: RawConfig,
    g: Gathered,
    cache_dir: Option<Seq<char>>,
)
    requires
        dns::plan_matches(p, raw, g, cache_dir),
        raw.dns matches Some(d) ==> d.enable != Some(true),
    ensures
        p.main@.len() == 1,
        p.main@[0].proxy is None,
        p.main@[0].url == (NameServerUrl::Udp {
            addr: HostOrIp::Ip(IpAddr::V4(0x0808_0808)),
            port: 53,
        }),
        p.fallback@.len() == 0 && p.default@.len() == 0,
        p.mode == DnsMode::Normal,
        p.listen is None && p.policy is None && p.filter is None && p.fake_ip is None,
        !p.use_system_hosts,
        p.use_hosts <==> !(raw.dns matches Some(d) && d.use_hosts == Some(false)),
{
}

/// A section that is switched on is followed: each of its lists of nameservers becomes the
/// list of the same purpose, in order; the mode, the address that is listened on and the
/// fixed addresses are as it says. A filter goes with a fallback, and made-up addresses
/// with their mode.
pub proof fn law_the_section_is_followed(
    p: DnsPlan,
    raw: RawConfig,
    d: RawDns,
    g: Gathered,
    cache_dir: Option<Seq<char>>,
    i: int,
)
    requires
        dns::plan_matches(p, raw, g, cache_dir),
        dns::dns_error(raw, g) is None,
        raw.dns == Some(d),
        d.enable == Some(true),
    ensures
        p.main@.len() == g.main@.len() && p.fallback@.len() == g.fallback@.len()
            && p.default@.len() == g.default@.len(),
        0 <= i < g.main@.len() ==> g.main@[i] == Ok::<NameServerEntry, String>(p.main@[i]),
        0 <= i < g.fallback@.len() ==> g.fallback@[i] == Ok::<NameServerEntry, String>(
            p.fallback@[i],
        ),
        0 <= i < g.default@.len() ==> g.default@[i] == Ok::<NameServerEntry, String>(
            p.default@[i],
        ),
        p.mode == DnsMode::FakeIp <==> (d.enhanced_mode matches Some(m) && m@ == "fake-ip"@),
        p.mode == DnsMode::Mapping <==> (d.enhanced_mode matches Some(m) && m@ == "redir-host"@),
        p.listen is Some <==> (d.listen matches Some(l) && l@.len() > 0),
        p.listen matches Some(a) ==> (d.listen matches Some(l) && net::socket(l@) == Some(a)),
        p.use_hosts <==> d.use_hosts != Some(false),
        p.use_system_hosts <==> d.use_hosts != Some(false) && d.use_system_hosts != Some(false),
        p.policy is Some <==> (d.nameserver_policy matches Some(l) && l@.len() > 0),
        p.filter is Some <==> p.fallback@.len() > 0,
        p.fake_ip is Some <==> p.mode == DnsMode::FakeIp,
        p.fake_ip matches Some(f) ==> cidr::range(
            match d.fake_ip_range {
                Some(r) => r@,
                None => "198.18.0.1/16"@,
            },
        ) == Some(f.range),
{
    reveal_strlit("fake-ip");
    reveal_strlit("redir-host");
    assert("fake-ip"@.len() == 7 && "redir-host"@.len() == 10);
    if 0 <= i < g.main@.len() {
        lemma_all_read(g.main@, 0, i);
    }
    if 0 <= i < g.fallback@.len() {
        lemma_all_read(g.fallback@, 0, i);
    }
    if 0 <= i < g.default@.len() {
        lemma_all_read(g.default@, 0, i);
    }
}

proof fn lemma_all_read(parsed: Seq<Read>, from: int, i: int)
    requires
        0 <= from <= i < parsed.len(),
        nameserver::first_unread(parsed, from) is None,
    ensures
        parsed[i] is Ok,
    decreases i - from,
{
    if from < i {
        lemma_all_read(parsed, from + 1, i);
    }
}

/// A resolver is refused exactly where a fixed address is none, or where a section that
/// is switched on names a nameserver that cannot be read, listens on what is no address,
/// has a policy that nobody can be asked for, or makes addresses up from what is no range.
pub proof fn law_when_a_resolver_is_refused(raw: RawConfig, g: Gathered)
    ensures
        dns::dns_error(raw, g) is Some <==> {
            ||| raw.hosts matches Some(h) && dns::hosts_of(h@) is Err
            ||| raw.dns matches Some(d) && d.enable == Some(true) && {
                ||| nameserver::first_unread(g.main@, 0) is Some
                ||| nameserver::first_unread(g.fallback@, 0) is Some
                ||| nameserver::first_unread(g.default@, 0) is Some
                ||| d.listen matches Some(l) && l@.len() > 0 && net::socket(l@) is None
                ||| dns::section_policies(d, g) is Err
                ||| (d.enhanced_mode matches Some(m) && m@ == "fake-ip"@) && cidr::range(
                    dns::fake_range(d),
                ) is None
            }
        },
{
    reveal_strlit("fake-ip");
    reveal_strlit("redir-host");
    assert("fake-ip"@.len() == 7 && "redir-host"@.len() == 10);
}

/// An address that is listened on may be left out, or be empty, and is then none; one
/// that is given is read or refused.
pub proof fn law_an_address_may_be_left_out(
    field: &str,
    value: Option<&str>,
    r: Result<Option<SocketAddr>, String>,
)
    requires
        call_ensures(dns::parse_optional_socket_addr, (field, value), r),
    ensures
        r == Ok::<Option<SocketAddr>, String>(None) <==> (value matches Some(v) ==> v@.len() == 0),
        r matches Ok(Some(a)) ==> (value matches Some(v) && net::socket(v@) == Some(a)),
        r is Err <==> (value matches Some(v) && v@.len() > 0 && net::socket(v@) is None),
{
}

proof fn lemma_bad_ip(s: Seq<Seq<char>>, from: int)
    requires
        0 <= from,
    ensures
        (match dns::first_bad_ip(s, from) {
            Some(k) => from <= k < s.len() && net::ip(s[k]) is None,
            None => forall|j: int| from <= j < s.len() ==> net::ip(#[trigger] s[j]) is Some,
        }),
    decreases s.len() - from,
{
    if from < s.len() && net::ip(s[from]) is Some {
        lemma_bad_ip(s, from + 1);
    }
}

/// A host with fixed addresses is entered behind those before it, under its name and with
/// its addresses in order. A wildcard stands for everything below its root and for the
/// root. What is no address is refused, and a host without addresses is not entered.
pub proof fn law_hosts_are_entered_one_by_one(
    h: Seq<(String, HostsValue)>,
    x: (String, HostsValue),
    i: int,
)
    requires
        dns::hosts_of(h) is Ok,
    ensures
        ({
            let r = dns::hosts_of(h.push(x));
            let name = text::trimmed(x.0@);
            let list = x.1.list();
            let had = dns::hosts_of(h)->Ok_0;
            let got = Seq::new(list.len(), |k: int| net::ip(list[k])->0);
            &&& r is Ok <==> forall|k: int| 0 <= k < list.len() ==> net::ip(#[trigger] list[k]) is Some
            &&& r is Ok && list.len() == 0 ==> r->Ok_0 == had
            &&& r is Ok && list.len() > 0 && "*."@.is_prefix_of(name) ==> r->Ok_0 == had.push(
                ("+."@ + name.skip(2), got),
            ).push((name.skip(2), got))
            &&& r is Ok && list.len() > 0 && "+."@.is_prefix_of(name) ==> r->Ok_0 == had.push(
                (name, got),
            ).push((name.skip(2), got))
            &&& r is Ok && list.len() > 0 && !"*."@.is_prefix_of(name) && !"+."@.is_prefix_of(name)
                ==> r->Ok_0 == had.push((name, got))
        }),
        dns::hosts_of(Seq::empty()) == Ok::<HostsView, Seq<char>>(Seq::empty()),
{
    let list = x.1.list();
    let name = text::trimmed(x.0@);
    lemma_bad_ip(list, 0);
    assert(h.push(x).drop_last() =~= h);
    let got = Seq::new(list.len(), |k: int| net::ip(list[k])->0);
    assert(dns::ips(list) =~= got);
    reveal_strlit("*.");
    reveal_strlit("+.");
    assert("*."@.len() == 2 && "+."@.len() == 2 && "*."@[0] == '*' && "+."@[0] == '+');
    let had = dns::hosts_of(h)->Ok_0;
    let entries = dns::host_entries(x.0@, list);
    if list.len() > 0 {
        if "*."@.is_prefix_of(name) {
            let w = "+."@ + name.skip(2);
            assert(w.skip(2) =~= name.skip(2));
            assert("+."@.is_prefix_of(w));
            assert(had + entries =~= had.push((w, got)).push((name.skip(2), got)));
        } else if "+."@.is_prefix_of(name) {
            assert(had + entries =~= had.push((name, got)).push((name.skip(2), got)));
        } else {
            assert(had + entries =~= had.push((name, got)));
        }
    } else {
        assert(had + entries =~= had);
    }
}

/// The addresses of a name in a list of hosts.
pub open spec fn addresses_of(h: HostsView, name: Seq<char>) -> Seq<IpAddr> {
    match dns::position(h, name) {
        Some(i) => h[i].1,
        None => Seq::empty(),
    }
}

proof fn lemma_position(h: HostsView, name: Seq<char>)
    ensures
        (match dns::position(h, name) {
            Some(i) => 0 <= i < h.len() && h[i].0 == name && forall|j: int|
                i < j < h.len() ==> (#[trigger] h[j]).0 != name,
            None => forall|j: int| 0 <= j < h.len() ==> (#[trigger] h[j]).0 != name,
        }),
    decreases h.len(),
{
    if h.len() > 0 && h.last().0 != name {
        lemma_position(h.drop_last(), name);
        let r = h.drop_last();
        assert forall|j: int| 0 <= j < r.len() implies #[trigger] h[j] == r[j] by {}
    }
}

proof fn lemma_position_is(h: HostsView, name: Seq<char>, i: int)
    requires
        0 <= i < h.len(),
        h[i].0 == name,
        forall|j: int| i < j < h.len() ==> (#[trigger] h[j]).0 != name,
    ensures
        dns::position(h, name) == Some(i),
    decreases h.len(),
{
    if i < h.len() - 1 {
        assert(h[h.len() - 1].0 != name);
        assert forall|j: int| i < j < h.len() - 1 implies (#[trigger] h.drop_last()[j]).0 != name by {
            assert(h[j].0 != name);
        }
        lemma_position_is(h.drop_last(), name, i);
    }
}

/// An address of the system's file is added to the addresses of its name, behind those
/// that the name has, and to no other name.
pub proof fn law_addresses_are_added_to_their_name(
    h: HostsView,
    name: Seq<char>,
    ip: IpAddr,
    x: Seq<char>,
)
    ensures
        addresses_of(dns::with_ip(h, name, ip), name) == addresses_of(h, name).push(ip),
        x != name ==> addresses_of(dns::with_ip(h, name, ip), x) == addresses_of(h, x),
{
    let n = dns::with_ip(h, name, ip);
    lemma_position(h, name);
    lemma_position(h, x);
    lemma_position(n, x);
    match dns::position(h, name) {
        Some(i) => {
            assert(n[i].0 == name);
            assert forall|j: int| 0 <= j < n.len() && j != i implies #[trigger] n[j] == h[j] by {}
            lemma_position_is(n, name, i);
            if x != name {
                match dns::position(h, x) {
                    Some(k) => {
                        assert forall|j: int| k < j < n.len() implies (#[trigger] n[j]).0 != x by {
                            if j != i {
                                assert(h[j].0 != x);
                            }
                        }
                        assert(n[k] == h[k]);
                        lemma_position_is(n, x, k);
                    },
                    None => {
                        if let Some(k) = dns::position(n, x) {
                            assert(h[k].0 == x);
                        }
                    },
                }
            }
        },
        None => {
            lemma_position_is(n, name, h.len() as int);
            assert(n[h.len() as int].1 =~= Seq::<IpAddr>::empty().push(ip));
            if x != name {
                match dns::position(h, x) {
                    Some(k) => {
                        assert forall|j: int| k < j < n.len() implies (#[trigger] n[j]).0 != x by {
                            if j < h.len() {
                                assert(h[j].0 != x);
                            }
                        }
                        assert(n[k] == h[k]);
                        lemma_position_is(n, x, k);
                    },
                    None => {
                        if let Some(k) = dns::position(n, x) {
                            if k < h.len() {
                                assert(h[k].0 == x);
                            }
                        }
                    },
                }
            }
        },
    }
}

/// A line of the system's file gives the address that it begins with to each name behind
/// it. A comment, a blank line, or one that begins with no address gives nothing. Names
/// are taken in small letters and without dots at their end.
pub proof fn law_lines_of_the_system_file(h: HostsView, line: Seq<char>, names: Seq<Seq<char>>, ip: IpAddr, n: Seq<char>)
    ensures
        ({
            let t = text::trimmed(line);
            let w = text::word_list(t);
            &&& t.len() == 0 || t[0] == '#' ==> dns::with_line(h, line) == h
            &&& w.len() > 0 && net::ip(w[0]) is None ==> dns::with_line(h, line) == h
            &&& t.len() > 0 && t[0] != '#' && w.len() > 0 && net::ip(w[0]) == Some(ip)
                ==> dns::with_line(h, line) == dns::with_names(h, w.skip(1), ip)
        }),
        dns::with_names(h, Seq::empty(), ip) == h,
        ({
            let name = text::unicode_lower(dns::without_dots(n));
            dns::with_names(h, names.push(n), ip) == (if name.len() > 0 {
                dns::with_ip(dns::with_names(h, names, ip), name, ip)
            } else {
                dns::with_names(h, names, ip)
            })
        }),
{
    assert(names.push(n).drop_last() =~= names);
}

/// Dots at the end of a name are taken off, all of them, and nothing else.
pub proof fn law_dots_at_the_end_are_taken_off(s: Seq<char>)
    ensures
        ({
            let r = dns::without_dots(s);
            &&& r.len() <= s.len()
            &&& s.take(r.len() as int) == r
            &&& forall|i: int| r.len() <= i < s.len() ==> #[trigger] s[i] == '.'
            &&& r.len() > 0 ==> r.last() != '.'
        }),
    decreases s.len(),
{
    if s.len() > 0 && s.last() == '.' {
        let d = s.drop_last();
        law_dots_at_the_end_are_taken_off(d);
        let r = dns::without_dots(s);
        assert(s.take(r.len() as int) =~= d.take(r.len() as int));
        assert forall|i: int| r.len() <= i < s.len() implies #[trigger] s[i] == '.' by {
            if i < d.len() {
                assert(d[i] == '.');
            }
        }
    } else {
        assert(s.take(s.len() as int) =~= s);
    }
}

/// Of the hosts of the system those are taken over that the configuration does not know,
/// in order, and no other.
pub proof fn law_only_unknown_hosts_are_taken_over(h: HostsView, known: Seq<bool>, i: int)
    requires
        h.len() == known.len(),
        0 <= i < h.len(),
    ensures
        !known[i] ==> dns::unknown_hosts(h, known).contains(h[i]),
        forall|k: int|
            0 <= k < dns::unknown_hosts(h, known).len() ==> exists|j: int|
                0 <= j < h.len() && !known[j] && (#[trigger] h[j]) == (
                #[trigger] dns::unknown_hosts(h, known)[k]),
        (forall|j: int| 0 <= j < known.len() ==> !(#[trigger] known[j])) ==> dns::unknown_hosts(
            h,
            known,
        ) == h,
        (forall|j: int| 0 <= j < known.len() ==> (#[trigger] known[j])) ==> dns::unknown_hosts(
            h,
            known,
        ).len() == 0,
    decreases h.len(),
{
    lemma_unknown(h, known, i);
}

proof fn lemma_unknown(h: HostsView, known: Seq<bool>, i: int)
    requires
        h.len() <= known.len(),
        0 <= i < h.len(),
    ensures
        !known[i] ==> dns::unknown_hosts(h, known).contains(h[i]),
        forall|k: int|
            0 <= k < dns::unknown_hosts(h, known).len() ==> exists|j: int|
                0 <= j < h.len() && !known[j] && (#[trigger] h[j]) == (
                #[trigger] dns::unknown_hosts(h, known)[k]),
        (forall|j: int| 0 <= j < h.len() ==> !(#[trigger] known[j])) ==> dns::unknown_hosts(
            h,
            known,
        ) == h,
        (forall|j: int| 0 <= j < h.len() ==> (#[trigger] known[j])) ==> dns::unknown_hosts(
            h,
            known,
        ).len() == 0,
    decreases h.len(),
{
    let r = h.drop_last();
    let all = dns::unknown_hosts(h, known);
    let had = dns::unknown_hosts(r, known);
    if r.len() > 0 {
        lemma_unknown(r, known, if i < r.len() {
            i
        } else {
            0
        });
    } else {
        assert(had.len() == 0);
        assert(had =~= r);
    }
    if !known[i] {
        if i < r.len() {
            let k = had.index_of(r[i]);
            assert(had.contains(r[i]));
            assert(all[k] == h[i]);
        } else {
            assert(all[all.len() - 1] == h[i]);
        }
    }
    assert forall|k: int| 0 <= k < all.len() implies exists|j: int|
        0 <= j < h.len() && !known[j] && (#[trigger] h[j]) == (#[trigger] all[k]) by {
        if k < had.len() {
            assert(all[k] == had[k]);
            let j = choose|j: int| 0 <= j < r.len() && !known[j] && (#[trigger] r[j]) == had[k];
            assert(h[j] == r[j]);
        } else {
            assert(h[h.len() - 1] == all[k]);
        }
    }
    if forall|j: int| 0 <= j < h.len() ==> !(#[trigger] known[j]) {
        assert(!known[h.len() - 1]);
        assert(r.push(h.last()) =~= h);
    }
    if forall|j: int| 0 <= j < h.len() ==> (#[trigger] known[j]) {
        assert(known[h.len() - 1]);
    }
}

/// The filter of a fallback asks for the country unless it is told not to, where there is
/// a database; the country is `CN` unless another is named. Its ranges and names are
/// those that are listed.
pub proof fn law_filters_are_as_they_are_written(
    r: FallbackFilter,
    f: Option<RawFallbackFilter>,
    database: bool,
)
    requires
        dns::filter_matches(r, f, database),
    ensures
        r.geoip_enabled <==> database && !(f matches Some(x) && x.geoip == Some(false)),
        (f matches Some(x) && x.geoip_code is Some) ==> r.geoip_code@ == f->0.geoip_code->0@,
        !(f matches Some(x) && x.geoip_code is Some) ==> r.geoip_code@ == "CN"@,
        (f matches Some(x) && x.ipcidr is Some) ==> r.ipcidr@ == dns::ranges(
            text::views(f->0.ipcidr->0@),
        ),
        !(f matches Some(x) && x.ipcidr is Some) ==> r.ipcidr@.len() == 0,
        (f matches Some(x) && x.domain is Some) ==> text::views(r.domain@) == dns::name_patterns(
            text::views(f->0.domain->0@),
        ),
        !(f matches Some(x) && x.domain is Some) ==> text::views(r.domain@).len() == 0,
{
}

/// Ranges and names of a filter are taken one by one in order: a range that can be read
/// once, one that cannot be read not at all, and a wildcard with its root.
pub proof fn law_filters_are_read_in_order(a: Seq<Seq<char>>, b: Seq<Seq<char>>, x: Seq<char>)
    ensures
        dns::ranges(a + b) == dns::ranges(a) + dns::ranges(b),
        cidr::range(x) matches Some(r) ==> dns::ranges(seq![x]) == seq![r],
        cidr::range(x) is None ==> dns::ranges(seq![x]).len() == 0,
        dns::name_patterns(a + b) == dns::name_patterns(a) + dns::name_patterns(b),
        dns::name_patterns(seq![x]) == dns::entered(dns::wildcard(x)),
    decreases b.len(),
{
    assert(seq![x].drop_last() =~= Seq::<Seq<char>>::empty());
    assert(dns::ranges(Seq::empty()) =~= Seq::<Range>::empty());
    assert(dns::name_patterns(Seq::empty()) =~= Seq::<Seq<char>>::empty());
    assert(dns::name_patterns(seq![x]) =~= dns::entered(dns::wildcard(x)));
    if let Some(r) = cidr::range(x) {
        assert(Seq::<Range>::empty().push(r) =~= seq![r]);
    }
    let p = dns::ranges(a);
    let q = dns::name_patterns(a);
    if b.len() == 0 {
        assert(a + b =~= a);
        assert(p + dns::ranges(b) =~= p);
        assert(q + dns::name_patterns(b) =~= q);
    } else {
        let r = b.drop_last();
        law_filters_are_read_in_order(a, r, x);
        assert((a + b).drop_last() =~= a + r);
        assert((a + b).last() == b.last());
        if let Some(y) = cidr::range(b.last()) {
            assert(p + dns::ranges(r).push(y) =~= (p + dns::ranges(r)).push(y));
        }
        let e = dns::entered(dns::wildcard(b.last()));
        assert(q + (dns::name_patterns(r) + e) =~= (q + dns::name_patterns(r)) + e);
    }
}

/// Made-up addresses are kept in a file exactly where that is asked for, one file for each
/// kind of address, under the directory of kept files or here; else so many are kept in
/// memory. The names that get none, or only get some, are those that are listed.
pub proof fn law_where_made_up_addresses_are_kept(
    p: FakeIpPlan,
    d: RawDns,
    cache_dir: Option<Seq<char>>,
)
    requires
        dns::fakes_as(p, d, cache_dir),
    ensures
        p.store is File <==> d.store_fake_ip == Some(true),
        p.store matches FakeIpStore::Memory(n) ==> n == 0x100000,
        p.store matches FakeIpStore::File(f) ==> f@ == paths::joined(
            match cache_dir {
                Some(c) => c,
                None => "."@,
            },
            if p.range.v6 {
                "fakeip-v6.json"@
            } else {
                "fakeip-v4.json"@
            },
        ),
        d.fake_ip_filter matches Some(v) ==> text::views(p.patterns@) == text::views(v@),
        d.fake_ip_filter is None ==> text::views(p.patterns@).len() == 0,
        p.mode == SkipperMode::WhiteList <==> (d.fake_ip_filter_mode matches Some(m) && (m@
            == "whitelist"@ || m@ == "white-list"@)),
{
}

} // verus!
