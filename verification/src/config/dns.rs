//! The `dns:` section: fixed addresses, the fallback filter and made-up addresses.

use crate::cidr;
use crate::cidr::Range;
use crate::config::nameserver;
use crate::config::nameserver::{NameServerEntry, PolicyEntry, PolicyServer, Read};
use crate::config::raw;
use crate::config::raw::{HostsValue, RawConfig, RawDns, RawFallbackFilter, RawNspValue};
use crate::net;
use crate::net::{IpAddr, SocketAddr};
use crate::paths;
use crate::text;
use vstd::prelude::*;
use vstd::string::*;

verus! {

/// How names are answered.
#[derive(Clone, Copy, Debug, PartialEq, Eq, Structural)]
pub enum DnsMode {
    Normal,
    /// With addresses that are made up for names.
    FakeIp,
    /// With their addresses, which are remembered for connections.
    Mapping,
}

/// The mode that a text names.
pub open spec fn mode_of(s: Option<Seq<char>>) -> DnsMode {
    match s {
        Some(t) => if t == "fake-ip"@ {
            DnsMode::FakeIp
        } else if t == "redir-host"@ {
            DnsMode::Mapping
        } else {
            DnsMode::Normal
        },
        None => DnsMode::Normal,
    }
}

fn read_mode(s: &Option<String>) -> (m: DnsMode)
    ensures
        m == mode_of(text::opt_view(*s)),
{
    match s {
        Some(t) => if text::same(t.as_str(), "fake-ip") {
            DnsMode::FakeIp
        } else if text::same(t.as_str(), "redir-host") {
            DnsMode::Mapping
        } else {
            DnsMode::Normal
        },
        None => DnsMode::Normal,
    }
}

/// Reads the address of a setting. An empty text is as none.
pub fn parse_optional_socket_addr(field: &str, value: Option<&str>) -> (r: Result<
    Option<SocketAddr>,
    String,
>)
    ensures
        (match value {
            Some(v) => if v@.len() == 0 {
                r == Ok::<Option<SocketAddr>, String>(None)
            } else {
                match (r, net::socket(v@)) {
                    (Ok(a), Some(b)) => a == Some(b),
                    (Err(e), None) => e@ == "invalid "@ + field@ + " socket address '"@ + v@
                        + "': invalid socket address syntax"@,
                    _ => false,
                }
            },
            None => r == Ok::<Option<SocketAddr>, String>(None),
        }),
{
    match value {
        Some(v) => {
            if v.unicode_len() == 0 {
                return Ok(None);
            }
            match net::parse_socket(v) {
                Some(a) => Ok(Some(a)),
                None => Err(
                    "invalid ".to_owned().concat(field).concat(" socket address '").concat(
                        v,
                    ).concat("': invalid socket address syntax"),
                ),
            }
        },
        None => Ok(None),
    }
}

/// A pattern of names, in which a leading star stands for any names below.
pub open spec fn wildcard(s: Seq<char>) -> Seq<char> {
    if "*."@.is_prefix_of(s) {
        "+."@ + s.skip(2)
    } else {
        s
    }
}

/// Writes `*.` at the start of a pattern as `+.`.
pub fn normalize_hosts_wildcard(s: &str) -> (r: String)
    ensures
        r@ == wildcard(s@),
{
    if text::starts_with(s, "*.") {
        proof {
            reveal_strlit("*.");
        }
        let rest = text::skip(s, 2);
        "+.".to_owned().concat(rest.as_str())
    } else {
        s.to_owned()
    }
}

/// The names that a pattern is entered under. A pattern for the names below one is
/// for that name too.
pub open spec fn entered(pattern: Seq<char>) -> Seq<Seq<char>> {
    if "+."@.is_prefix_of(pattern) {
        seq![pattern, pattern.skip(2)]
    } else {
        seq![pattern]
    }
}

fn enter(pattern: String) -> (out: Vec<String>)
    ensures
        text::views(out@) == entered(pattern@),
{
    let mut out = text::no_strings();
    if text::starts_with(pattern.as_str(), "+.") {
        proof {
            reveal_strlit("+.");
        }
        let bare = text::skip(pattern.as_str(), 2);
        text::push_string(&mut out, pattern);
        text::push_string(&mut out, bare);
    } else {
        text::push_string(&mut out, pattern);
    }
    assert(text::views(out@) =~= entered(pattern@));
    out
}

/// A pattern that was rewritten is not rewritten again.
pub proof fn law_wildcards_settle(s: Seq<char>)
    ensures
        wildcard(wildcard(s)) == wildcard(s),
{
    reveal_strlit("*.");
    reveal_strlit("+.");
    if "*."@.is_prefix_of(s) {
        assert(wildcard(s)[0] == '+');
        assert("*."@[0] == '*');
    }
}

/// A star for the names below one is entered for those names and for that name.
pub proof fn law_wildcards_cover_their_root(name: Seq<char>)
    ensures
        entered(wildcard("*."@ + name)) == seq!["+."@ + name, name],
{
    reveal_strlit("*.");
    reveal_strlit("+.");
    let s = "*."@ + name;
    assert("*."@.is_prefix_of(s));
    assert(s.skip(2) =~= name);
    assert("+."@.is_prefix_of("+."@ + name));
    assert(("+."@ + name).skip(2) =~= name);
}

/// Names with their addresses.
pub type HostList = Vec<(String, Vec<IpAddr>)>;

/// Names with their addresses, as mathematical values.
pub type HostsView = Seq<(Seq<char>, Seq<IpAddr>)>;

pub open spec fn hosts_view(v: Seq<(String, Vec<IpAddr>)>) -> HostsView {
    v.map_values(|x: (String, Vec<IpAddr>)| (x.0@, x.1@))
}

/// The first text, from a position on, that is no address.
pub open spec fn first_bad_ip(s: Seq<Seq<char>>, from: int) -> Option<int>
    decreases s.len() - from,
{
    if from < 0 || from >= s.len() {
        None
    } else if net::ip(s[from]) is None {
        Some(from)
    } else {
        first_bad_ip(s, from + 1)
    }
}

/// The addresses that texts name.
pub open spec fn ips(s: Seq<Seq<char>>) -> Seq<IpAddr> {
    s.map_values(|t: Seq<char>| net::ip(t)->0)
}

/// What one host is entered as: nothing where it has no address.
pub open spec fn host_entries(host: Seq<char>, list: Seq<Seq<char>>) -> HostsView {
    if list.len() == 0 {
        Seq::empty()
    } else {
        entered(wildcard(text::trimmed(host))).map_values(|n: Seq<char>| (n, ips(list)))
    }
}

/// How it is told that an address cannot be read.
pub open spec fn hosts_error(host: Seq<char>, ip: Seq<char>) -> Seq<char> {
    "dns.hosts: invalid IP '"@ + ip + "' for host '"@ + host
        + "': invalid IP address syntax (Class A per ADR-0002 — malformed hosts entries are almost certainly typos)"@
}

/// The fixed addresses of hosts, in the order in which they are entered.
pub open spec fn hosts_of(h: Seq<(String, HostsValue)>) -> Result<HostsView, Seq<char>>
    decreases h.len(),
{
    if h.len() == 0 {
        Ok(Seq::empty())
    } else {
        match hosts_of(h.drop_last()) {
            Err(e) => Err(e),
            Ok(before) => {
                let host = h.last().0@;
                let list = h.last().1.list();
                match first_bad_ip(list, 0) {
                    Some(i) => Err(hosts_error(host, list[i])),
                    None => Ok(before + host_entries(host, list)),
                }
            },
        }
    }
}

fn read_ips(list: &Vec<&str>) -> (r: Result<Vec<IpAddr>, usize>)
    ensures
        (match r {
            Ok(v) => first_bad_ip(raw::str_views(list@), 0) is None && v@ == ips(
                raw::str_views(list@),
            ),
            Err(i) => i < list@.len() && first_bad_ip(raw::str_views(list@), 0)
                == Some(i as int),
        }),
{
    let ghost all = raw::str_views(list@);
    let mut out: Vec<IpAddr> = Vec::new();
    let mut i: usize = 0;
    while i < list.len()
        invariant
            i <= list@.len(),
            all == raw::str_views(list@),
            first_bad_ip(all, 0) == first_bad_ip(all, i as int),
            out@ == ips(all).take(i as int),
        decreases list@.len() - i,
    {
        assert(all[i as int] == list@[i as int]@);
        match net::parse_ip(list[i]) {
            Some(ip) => {
                out.push(ip);
                assert(ips(all).take(i + 1) =~= ips(all).take(i as int).push(ip));
            },
            None => return Err(i),
        }
        i += 1;
    }
    assert(ips(all).take(i as int) =~= ips(all));
    Ok(out)
}

fn copy_ips(v: &Vec<IpAddr>) -> (out: Vec<IpAddr>)
    ensures
        out@ == v@,
{
    let mut out: Vec<IpAddr> = Vec::new();
    let mut i: usize = 0;
    while i < v.len()
        invariant
            i <= v@.len(),
            out@ == v@.take(i as int),
        decreases v@.len() - i,
    {
        out.push(v[i]);
        i += 1;
    }
    assert(v@.take(i as int) =~= v@);
    out
}

proof fn lemma_hosts_step(h: Seq<(String, HostsValue)>, i: int)
    requires
        0 <= i < h.len(),
        hosts_of(h.take(i)) is Ok,
    ensures
        ({
            let host = h[i].0@;
            let list = h[i].1.list();
            match (hosts_of(h.take(i + 1)), first_bad_ip(list, 0)) {
                (Err(e), Some(k)) => e == hosts_error(host, list[k]),
                (Ok(v), None) => v == hosts_of(h.take(i))->Ok_0 + host_entries(host, list),
                _ => false,
            }
        }),
{
    assert(h.take(i + 1).drop_last() =~= h.take(i));
    assert(h.take(i + 1).last() == h[i]);
}

proof fn lemma_hosts_err(h: Seq<(String, HostsValue)>, n: int)
    requires
        0 <= n <= h.len(),
        hosts_of(h.take(n)) is Err,
    ensures
        hosts_of(h) == hosts_of(h.take(n)),
    decreases h.len(),
{
    if n == h.len() {
        assert(h.take(n) =~= h);
    } else {
        assert(h.drop_last().take(n) =~= h.take(n));
        lemma_hosts_err(h.drop_last(), n);
    }
}

fn add_host(out: &mut HostList, host: &str, value: &HostsValue) -> (r: Result<(), String>)
    ensures
        (match (r, first_bad_ip(value.list(), 0)) {
            (Ok(_), None) => hosts_view(final(out)@) == hosts_view(old(out)@) + host_entries(
                host@,
                value.list(),
            ),
            (Err(e), Some(i)) => e@ == hosts_error(host@, value.list()[i]),
            _ => false,
        }),
{
    let list = value.as_slice();
    let ghost all = value.list();
    assert(raw::str_views(list@) == all);
    match read_ips(&list) {
        Ok(ips) => {
            assert(ips@.len() == all.len());
            if ips.len() > 0 {
                let names = enter(normalize_hosts_wildcard(text::trim(host).as_str()));
                add_names(out, &names, &ips);
            } else {
                assert(hosts_view(out@) + host_entries(host@, all) =~= hosts_view(out@));
            }
            Ok(())
        },
        Err(k) => {
            assert(all[k as int] == list@[k as int]@);
            Err(
                "dns.hosts: invalid IP '".to_owned().concat(list[k]).concat("' for host '").concat(
                    host,
                ).concat(
                    "': invalid IP address syntax (Class A per ADR-0002 — malformed hosts entries are almost certainly typos)",
                ),
            )
        },
    }
}

/// The fixed addresses of hosts, in the order in which they are entered. Every
/// address must be readable.
pub fn build_hosts_trie(hosts: Option<&Vec<(String, HostsValue)>>) -> (r: Result<HostList, String>)
    ensures
        (match hosts {
            Some(h) => match (r, hosts_of(h@)) {
                (Ok(v), Ok(w)) => hosts_view(v@) == w,
                (Err(e), Err(m)) => e@ == m,
                _ => false,
            },
            None => r matches Ok(v) && v@.len() == 0,
        }),
{
    let mut out: HostList = Vec::new();
    let all = match hosts {
        Some(h) => h,
        None => return Ok(out),
    };
    let mut i: usize = 0;
    assert(all@.take(0) =~= Seq::empty());
    assert(hosts_view(out@) =~= Seq::empty());
    while i < all.len()
        invariant
            i <= all@.len(),
            hosts == Some(all),
            hosts_of(all@.take(i as int)) is Ok,
            hosts_of(all@.take(i as int))->Ok_0 == hosts_view(out@),
        decreases all@.len() - i,
    {
        proof {
            lemma_hosts_step(all@, i as int);
        }
        if let Err(e) = add_host(&mut out, all[i].0.as_str(), &all[i].1) {
            proof {
                lemma_hosts_err(all@, i + 1);
            }
            return Err(e);
        }
        i += 1;
    }
    assert(all@.take(i as int) =~= all@);
    Ok(out)
}

fn add_names(out: &mut HostList, names: &Vec<String>, list: &Vec<IpAddr>)
    ensures
        hosts_view(final(out)@) == hosts_view(old(out)@) + text::views(names@).map_values(
            |n: Seq<char>| (n, list@),
        ),
{
    let ghost start = hosts_view(out@);
    let ghost want = text::views(names@).map_values(|n: Seq<char>| (n, list@));
    let mut k: usize = 0;
    while k < names.len()
        invariant
            k <= names@.len(),
            want == text::views(names@).map_values(|n: Seq<char>| (n, list@)),
            hosts_view(out@) == start + want.take(k as int),
        decreases names@.len() - k,
    {
        let ghost had = hosts_view(out@);
        out.push((names[k].clone(), copy_ips(list)));
        assert(hosts_view(out@) =~= had.push((names@[k as int]@, list@)));
        assert(want.take(k + 1) =~= want.take(k as int).push((names@[k as int]@, list@)));
        k += 1;
    }
    assert(want.take(k as int) =~= want);
}

/// A name without the dots at its end.
pub open spec fn without_dots(s: Seq<char>) -> Seq<char>
    decreases s.len(),
{
    if s.len() > 0 && s.last() == '.' {
        without_dots(s.drop_last())
    } else {
        s
    }
}

/// Where a name stands.
pub open spec fn position(h: HostsView, name: Seq<char>) -> Option<int>
    decreases h.len(),
{
    if h.len() == 0 {
        None
    } else if h.last().0 == name {
        Some(h.len() - 1)
    } else {
        position(h.drop_last(), name)
    }
}

/// The addresses with one more for a name.
pub open spec fn with_ip(h: HostsView, name: Seq<char>, ip: IpAddr) -> HostsView {
    match position(h, name) {
        Some(i) => h.update(i, (name, h[i].1.push(ip))),
        None => h.push((name, seq![ip])),
    }
}

/// The addresses with one more for each of several names.
pub open spec fn with_names(h: HostsView, names: Seq<Seq<char>>, ip: IpAddr) -> HostsView
    decreases names.len(),
{
    if names.len() == 0 {
        h
    } else {
        let before = with_names(h, names.drop_last(), ip);
        let name = text::unicode_lower(without_dots(names.last()));
        if name.len() > 0 {
            with_ip(before, name, ip)
        } else {
            before
        }
    }
}

/// The addresses with those of a line of a hosts file: an address, then names.
pub open spec fn with_line(h: HostsView, line: Seq<char>) -> HostsView {
    let t = text::trimmed(line);
    let w = text::word_list(t);
    if t.len() == 0 || t[0] == '#' || w.len() == 0 {
        h
    } else {
        match net::ip(w[0]) {
            Some(ip) => with_names(h, w.skip(1), ip),
            None => h,
        }
    }
}

/// The addresses of the lines of a hosts file.
pub open spec fn with_lines(lines: Seq<Seq<char>>) -> HostsView
    decreases lines.len(),
{
    if lines.len() == 0 {
        Seq::empty()
    } else {
        with_line(with_lines(lines.drop_last()), lines.last())
    }
}

fn strip_dots(s: &str) -> (r: String)
    ensures
        r@ == without_dots(s@),
{
    let c = text::chars_of(s);
    let mut n: usize = c.len();
    assert(c@.take(n as int) =~= c@);
    while n > 0 && c[n - 1] == '.'
        invariant
            n <= c@.len(),
            c@ == s@,
            without_dots(c@) == without_dots(c@.take(n as int)),
        decreases n,
    {
        assert(c@.take(n as int).drop_last() =~= c@.take(n - 1));
        n -= 1;
    }
    let r = text::string_range(&c, 0, n);
    assert(c@.subrange(0, n as int) =~= c@.take(n as int));
    r
}

fn find_position(h: &HostList, name: &str) -> (r: Option<usize>)
    ensures
        (match r {
            Some(i) => i < h@.len() && position(hosts_view(h@), name@) == Some(i as int),
            None => position(hosts_view(h@), name@) is None,
        }),
{
    let ghost view = hosts_view(h@);
    let mut i: usize = h.len();
    assert(view.take(i as int) =~= view);
    while i > 0
        invariant
            i <= h@.len(),
            view == hosts_view(h@),
            position(view, name@) == position(view.take(i as int), name@),
        decreases i,
    {
        i -= 1;
        assert(view.take(i + 1).drop_last() =~= view.take(i as int));
        assert(view.take(i + 1).last() == view[i as int]);
        if text::same(h[i].0.as_str(), name) {
            return Some(i);
        }
    }
    None
}

fn add_ip(h: &mut HostList, name: String, ip: IpAddr)
    ensures
        hosts_view(final(h)@) == with_ip(hosts_view(old(h)@), name@, ip),
{
    let ghost view = hosts_view(h@);
    match find_position(h, name.as_str()) {
        Some(i) => {
            let mut list = copy_ips(&h[i].1);
            list.push(ip);
            let ghost entry = (name@, list@);
            h.set(i, (name, list));
            assert(hosts_view(h@) =~= view.update(i as int, entry));
        },
        None => {
            let mut list: Vec<IpAddr> = Vec::new();
            list.push(ip);
            assert(list@ =~= seq![ip]);
            let ghost entry = (name@, list@);
            h.push((name, list));
            assert(hosts_view(h@) =~= view.push(entry));
        },
    }
}

fn add_line(h: &mut HostList, line: &str)
    ensures
        hosts_view(final(h)@) == with_line(hosts_view(old(h)@), line@),
{
    let t = text::trim(line);
    let c = text::chars_of(t.as_str());
    if c.len() == 0 || c[0] == '#' {
        return;
    }
    let w = text::words(t.as_str());
    if w.len() == 0 {
        return;
    }
    let ghost words = text::views(w@);
    assert(words[0] == w@[0]@);
    let ip = match net::parse_ip(w[0].as_str()) {
        Some(ip) => ip,
        None => return,
    };
    let ghost start = hosts_view(h@);
    let mut i: usize = 1;
    assert(words.skip(1).take(0) =~= Seq::empty());
    while i < w.len()
        invariant
            1 <= i <= w@.len(),
            words == text::views(w@),
            hosts_view(h@) == with_names(start, words.skip(1).take(i - 1), ip),
        decreases w@.len() - i,
    {
        assert(words.skip(1).take(i as int).drop_last() =~= words.skip(1).take(i - 1));
        assert(words.skip(1).take(i as int).last() == w@[i as int]@);
        let bare = strip_dots(w[i].as_str());
        let name = text::lowercase(bare.as_str());
        if name.as_str().unicode_len() > 0 {
            add_ip(h, name, ip);
        }
        i += 1;
    }
    assert(words.skip(1).take(i - 1) =~= words.skip(1));
}

/// The names and addresses of a hosts file. A name can have several addresses.
pub fn parse_system_hosts(content: &str) -> (out: HostList)
    ensures
        hosts_view(out@) == with_lines(text::line_list(content@)),
{
    let lines = text::lines(content);
    let ghost all = text::views(lines@);
    let mut out: HostList = Vec::new();
    let mut i: usize = 0;
    assert(all.take(0) =~= Seq::empty());
    assert(hosts_view(out@) =~= Seq::empty());
    while i < lines.len()
        invariant
            i <= lines@.len(),
            all == text::views(lines@),
            hosts_view(out@) == with_lines(all.take(i as int)),
        decreases lines@.len() - i,
    {
        assert(all.take(i + 1).drop_last() =~= all.take(i as int));
        assert(all.take(i + 1).last() == lines@[i as int]@);
        add_line(&mut out, lines[i].as_str());
        i += 1;
    }
    assert(all.take(i as int) =~= all);
    out
}

/// The entries of a hosts file that are entered: those of names that have no fixed
/// address yet.
pub open spec fn unknown_hosts(h: HostsView, known: Seq<bool>) -> HostsView
    decreases h.len(),
{
    if h.len() == 0 {
        Seq::empty()
    } else {
        let r = unknown_hosts(h.drop_last(), known);
        if known[h.len() - 1] {
            r
        } else {
            r.push(h.last())
        }
    }
}

/// The entries of a hosts file that are entered, given which of them are known:
/// what is configured comes before what the system says.
pub fn merge_system_hosts(entries: &HostList, known: &Vec<bool>) -> (out: HostList)
    requires
        entries@.len() == known@.len(),
    ensures
        hosts_view(out@) == unknown_hosts(hosts_view(entries@), known@),
{
    let ghost all = hosts_view(entries@);
    let mut out: HostList = Vec::new();
    let mut i: usize = 0;
    assert(all.take(0) =~= Seq::empty());
    assert(hosts_view(out@) =~= Seq::empty());
    while i < entries.len()
        invariant
            i <= entries@.len(),
            entries@.len() == known@.len(),
            all == hosts_view(entries@),
            hosts_view(out@) == unknown_hosts(all.take(i as int), known@),
        decreases entries@.len() - i,
    {
        assert(all.take(i + 1).drop_last() =~= all.take(i as int));
        assert(all.take(i + 1).last() == all[i as int]);
        if !known[i] {
            let ghost had = hosts_view(out@);
            out.push((entries[i].0.clone(), copy_ips(&entries[i].1)));
            assert(hosts_view(out@) =~= had.push(all[i as int]));
        }
        i += 1;
    }
    assert(all.take(i as int) =~= all);
    out
}

/// When the fallback nameservers are asked.
#[derive(Clone, Debug)]
pub struct FallbackFilter {
    /// Whether addresses outside a country call for the fallback.
    pub geoip_enabled: bool,
    pub geoip_code: String,
    /// Answers in these ranges call for the fallback.
    pub ipcidr: Vec<Range>,
    /// Names under these patterns call for the fallback.
    pub domain: Vec<String>,
}

/// The ranges among texts.
pub open spec fn ranges(s: Seq<Seq<char>>) -> Seq<Range>
    decreases s.len(),
{
    if s.len() == 0 {
        Seq::empty()
    } else {
        let r = ranges(s.drop_last());
        match cidr::range(s.last()) {
            Some(x) => r.push(x),
            None => r,
        }
    }
}

/// The patterns that names are entered under.
pub open spec fn name_patterns(s: Seq<Seq<char>>) -> Seq<Seq<char>>
    decreases s.len(),
{
    if s.len() == 0 {
        Seq::empty()
    } else {
        name_patterns(s.drop_last()) + entered(wildcard(s.last()))
    }
}

/// Whether the database of countries is wanted: it is, unless it is switched off.
pub open spec fn geoip_wanted(f: Option<RawFallbackFilter>) -> bool {
    match f {
        Some(f) => f.geoip != Some(false),
        None => true,
    }
}

/// Whether a filter is what a section says.
pub open spec fn filter_matches(
    r: FallbackFilter,
    f: Option<RawFallbackFilter>,
    database: bool,
) -> bool {
    &&& r.geoip_enabled == (geoip_wanted(f) && database)
    &&& r.geoip_code@ == (match f {
        Some(f) => match f.geoip_code {
            Some(c) => c@,
            None => "CN"@,
        },
        None => "CN"@,
    })
    &&& r.ipcidr@ == (match f {
        Some(f) => match f.ipcidr {
            Some(v) => ranges(text::views(v@)),
            None => Seq::empty(),
        },
        None => Seq::empty(),
    })
    &&& text::views(r.domain@) == (match f {
        Some(f) => match f.domain {
            Some(v) => name_patterns(text::views(v@)),
            None => Seq::empty(),
        },
        None => Seq::empty(),
    })
}

fn read_ranges(v: &Vec<String>) -> (out: Vec<Range>)
    ensures
        out@ == ranges(text::views(v@)),
{
    let ghost all = text::views(v@);
    let mut out: Vec<Range> = Vec::new();
    let mut i: usize = 0;
    assert(all.take(0) =~= Seq::empty());
    while i < v.len()
        invariant
            i <= v@.len(),
            all == text::views(v@),
            out@ == ranges(all.take(i as int)),
        decreases v@.len() - i,
    {
        assert(all.take(i + 1).drop_last() =~= all.take(i as int));
        assert(all.take(i + 1).last() == v@[i as int]@);
        if let Ok(x) = cidr::parse_range(v[i].as_str()) {
            out.push(x);
        }
        i += 1;
    }
    assert(all.take(i as int) =~= all);
    out
}

fn enter_all(v: &Vec<String>) -> (out: Vec<String>)
    ensures
        text::views(out@) == name_patterns(text::views(v@)),
{
    let ghost all = text::views(v@);
    let mut out = text::no_strings();
    let mut i: usize = 0;
    assert(all.take(0) =~= Seq::empty());
    while i < v.len()
        invariant
            i <= v@.len(),
            all == text::views(v@),
            text::views(out@) == name_patterns(all.take(i as int)),
        decreases v@.len() - i,
    {
        assert(all.take(i + 1).drop_last() =~= all.take(i as int));
        assert(all.take(i + 1).last() == v@[i as int]@);
        let more = enter(normalize_hosts_wildcard(v[i].as_str()));
        text::append_strings(&mut out, &more);
        i += 1;
    }
    assert(all.take(i as int) =~= all);
    out
}

/// When the fallback nameservers are asked, given whether the database of countries
/// can be read. Without the database countries are not looked at.
pub fn build_fallback_filter(f: Option<&RawFallbackFilter>, database: bool) -> (r: FallbackFilter)
    ensures
        filter_matches(
            r,
            match f {
                Some(f) => Some(*f),
                None => None,
            },
            database,
        ),
{
    match f {
        Some(f) => {
            let geoip = match f.geoip {
                Some(b) => b,
                None => true,
            };
            let geoip_code = match &f.geoip_code {
                Some(c) => c.clone(),
                None => "CN".to_owned(),
            };
            let ipcidr = match &f.ipcidr {
                Some(v) => read_ranges(v),
                None => Vec::new(),
            };
            let domain = match &f.domain {
                Some(v) => enter_all(v),
                None => text::no_strings(),
            };
            FallbackFilter { geoip_enabled: geoip && database, geoip_code, ipcidr, domain }
        },
        None => FallbackFilter {
            geoip_enabled: database,
            geoip_code: "CN".to_owned(),
            ipcidr: Vec::new(),
            domain: text::no_strings(),
        },
    }
}

/// What the patterns of made-up addresses say.
#[derive(Clone, Copy, Debug, PartialEq, Eq, Structural)]
pub enum SkipperMode {
    /// The names get no made-up address.
    BlackList,
    /// Only the names get one.
    WhiteList,
}

/// The mode that a text names.
pub open spec fn skipper_mode(s: Option<Seq<char>>) -> SkipperMode {
    match s {
        Some(t) => if t == "whitelist"@ || t == "white-list"@ {
            SkipperMode::WhiteList
        } else {
            SkipperMode::BlackList
        },
        None => SkipperMode::BlackList,
    }
}

/// Where the made-up addresses are remembered.
#[derive(Clone, Debug)]
pub enum FakeIpStore {
    /// In memory, at most so many.
    Memory(usize),
    /// In a file.
    File(String),
}

/// How addresses are made up.
#[derive(Clone, Debug)]
pub struct FakeIpPlan {
    pub range: Range,
    pub store: FakeIpStore,
    pub patterns: Vec<String>,
    pub mode: SkipperMode,
}

/// The range that is used where none is set.
pub const DEFAULT_FAKE_IP_RANGE_V4: &'static str = "198.18.0.1/16";

/// The text of the range.
pub open spec fn fake_range(d: RawDns) -> Seq<char> {
    match d.fake_ip_range {
        Some(r) => r@,
        None => DEFAULT_FAKE_IP_RANGE_V4@,
    }
}

/// The file in which made-up addresses are remembered.
pub open spec fn store_path(cache_dir: Option<Seq<char>>, v6: bool) -> Seq<char> {
    paths::joined(
        match cache_dir {
            Some(d) => d,
            None => "."@,
        },
        if v6 {
            "fakeip-v6.json"@
        } else {
            "fakeip-v4.json"@
        },
    )
}

/// Whether a plan is what a section says.
pub open spec fn fake_ip_matches(p: FakeIpPlan, d: RawDns, cache_dir: Option<Seq<char>>) -> bool {
    &&& cidr::range(fake_range(d)) == Some(p.range)
    &&& fakes_as(p, d, cache_dir)
}

/// Whether a plan is what a section says, apart from its range.
pub open spec fn fakes_as(p: FakeIpPlan, d: RawDns, cache_dir: Option<Seq<char>>) -> bool {
    &&& match p.store {
        FakeIpStore::Memory(n) => d.store_fake_ip != Some(true) && n == 0x100000,
        FakeIpStore::File(f) => d.store_fake_ip == Some(true) && f@ == store_path(
            cache_dir,
            p.range.v6,
        ),
    }
    &&& text::views(p.patterns@) == (match d.fake_ip_filter {
        Some(v) => text::views(v@),
        None => Seq::empty(),
    })
    &&& p.mode == skipper_mode(text::opt_view(d.fake_ip_filter_mode))
}

/// How addresses are made up. The range must be readable.
pub fn install_fakeip(d: &RawDns, cache_dir: Option<&str>) -> (r: Result<FakeIpPlan, String>)
    ensures
        (match r {
            Ok(p) => fake_ip_matches(
                p,
                *d,
                match cache_dir {
                    Some(c) => Some(c@),
                    None => None,
                },
            ),
            Err(e) => cidr::range(fake_range(*d)) is None && e@ == "dns.fake-ip-range '"@
                + fake_range(*d) + "' is not a valid CIDR: invalid IP address syntax"@,
        }),
{
    let text_of_range = match &d.fake_ip_range {
        Some(r) => r.clone(),
        None => DEFAULT_FAKE_IP_RANGE_V4.to_owned(),
    };
    match cidr::parse_range(text_of_range.as_str()) {
        Ok(x) => Ok(plan_fakeip(d, x, cache_dir)),
        Err(_e) => Err(
            "dns.fake-ip-range '".to_owned().concat(text_of_range.as_str()).concat(
                "' is not a valid CIDR: invalid IP address syntax",
            ),
        ),
    }
}

/// How addresses of a range are made up.
pub fn plan_fakeip(d: &RawDns, range: Range, cache_dir: Option<&str>) -> (p: FakeIpPlan)
    ensures
        p.range == range,
        fakes_as(
            p,
            *d,
            match cache_dir {
                Some(c) => Some(c@),
                None => None,
            },
        ),
{
    let persist = match d.store_fake_ip {
        Some(b) => b,
        None => false,
    };
    let store = if persist {
        let dir = match cache_dir {
            Some(c) => c.to_owned(),
            None => ".".to_owned(),
        };
        let name = if range.v6 {
            "fakeip-v6.json"
        } else {
            "fakeip-v4.json"
        };
        FakeIpStore::File(paths::join(dir.as_str(), name))
    } else {
        FakeIpStore::Memory(0x100000)
    };
    let patterns = match &d.fake_ip_filter {
        Some(v) => text::copy_strings(v),
        None => text::no_strings(),
    };
    let mode = match &d.fake_ip_filter_mode {
        Some(t) => if text::same(t.as_str(), "whitelist") || text::same(t.as_str(), "white-list") {
            SkipperMode::WhiteList
        } else {
            SkipperMode::BlackList
        },
        None => SkipperMode::BlackList,
    };
    FakeIpPlan { range, store, patterns, mode }
}

/// How names are answered.
#[derive(Debug)]
pub struct DnsPlan {
    pub main: Vec<NameServerEntry>,
    pub fallback: Vec<NameServerEntry>,
    /// The nameservers that are asked for the addresses of nameservers.
    pub default: Vec<NameServerEntry>,
    pub mode: DnsMode,
    pub listen: Option<SocketAddr>,
    pub hosts: HostList,
    pub use_hosts: bool,
    /// Whether the hosts file of the system is read too.
    pub use_system_hosts: bool,
    /// Which names go to which nameservers.
    pub policy: Option<Vec<PolicyEntry>>,
    /// When the fallback nameservers are asked.
    pub filter: Option<FallbackFilter>,
    /// How addresses are made up, where they are.
    pub fake_ip: Option<FakeIpPlan>,
}

/// What is gathered before names can be answered: what was read of the nameservers,
/// of those of each policy too, and which databases are there.
#[derive(Debug)]
pub struct Gathered {
    pub main: Vec<Read>,
    pub fallback: Vec<Read>,
    pub default: Vec<Read>,
    pub policy: Vec<Vec<PolicyServer>>,
    /// Whether the database of sites is there.
    pub sites: bool,
    /// Whether the database of countries is there.
    pub countries: bool,
}

/// The section, if it is switched on.
pub open spec fn active(raw: RawConfig) -> Option<RawDns> {
    match raw.dns {
        Some(d) => if d.enable == Some(true) {
            Some(d)
        } else {
            None
        },
        None => None,
    }
}

/// A list that may be absent.
pub open spec fn list_of(o: Option<Vec<String>>) -> Seq<String> {
    match o {
        Some(v) => v@,
        None => Seq::empty(),
    }
}

/// The keys of the policies of a section.
pub open spec fn policy_keys(d: RawDns) -> Seq<Seq<char>> {
    match d.nameserver_policy {
        Some(v) => v@.map_values(|x: (String, RawNspValue)| x.0@),
        None => Seq::empty(),
    }
}

/// Whether something was gathered for each nameserver and each policy.
pub open spec fn gathered_for(g: Gathered, raw: RawConfig) -> bool {
    active(raw) matches Some(d) ==> {
        &&& g.main@.len() == list_of(d.nameserver).len()
        &&& g.fallback@.len() == list_of(d.fallback).len()
        &&& g.default@.len() == list_of(d.default_nameserver).len()
        &&& g.policy@.len() == policy_keys(d).len()
    }
}

/// Why nameservers cannot be taken.
pub open spec fn servers_error(servers: Seq<String>, parsed: Seq<Read>) -> Option<Seq<char>> {
    match nameserver::first_unread(parsed, 0) {
        Some(i) => Some(
            "failed to parse nameserver '"@ + servers[i]@ + "': "@ + parsed[i]->Err_0@,
        ),
        None => None,
    }
}

/// Why an address to listen on cannot be taken.
pub open spec fn listen_error(s: Option<String>) -> Option<Seq<char>> {
    match s {
        Some(v) => if v@.len() > 0 && net::socket(v@) is None {
            Some(
                "invalid dns.listen socket address '"@ + v@ + "': invalid socket address syntax"@,
            )
        } else {
            None
        },
        None => None,
    }
}

/// Why the fixed addresses cannot be taken.
pub open spec fn fixed_error(raw: RawConfig) -> Option<Seq<char>> {
    match raw.hosts {
        Some(h) => match hosts_of(h@) {
            Err(e) => Some(e),
            Ok(_) => None,
        },
        None => None,
    }
}

/// The fixed addresses.
pub open spec fn fixed_hosts(raw: RawConfig) -> HostsView {
    match raw.hosts {
        Some(h) => hosts_of(h@)->Ok_0,
        None => Seq::empty(),
    }
}

/// The policies of a section, or why they cannot be taken.
pub open spec fn section_policies(d: RawDns, g: Gathered) -> Result<
    Seq<nameserver::PolicyView>,
    Seq<char>,
> {
    nameserver::policies_of(
        policy_keys(d),
        nameserver::server_lists(g.policy@),
        g.sites,
        policy_keys(d).len(),
    )
}

/// Why the policies of a section cannot be taken.
pub open spec fn policy_error(d: RawDns, g: Gathered) -> Option<Seq<char>> {
    match section_policies(d, g) {
        Err(e) => Some(e),
        Ok(_) => None,
    }
}

/// Whether a section makes addresses up.
pub open spec fn fakes(d: RawDns) -> bool {
    mode_of(text::opt_view(d.enhanced_mode)) == DnsMode::FakeIp
}

/// Why addresses cannot be made up.
pub open spec fn fake_error(d: RawDns) -> Option<Seq<char>> {
    if fakes(d) && cidr::range(fake_range(d)) is None {
        Some(
            "dns.fake-ip-range '"@ + fake_range(d)
                + "' is not a valid CIDR: invalid IP address syntax"@,
        )
    } else {
        None
    }
}

/// The first error of two.
pub open spec fn or_else(a: Option<Seq<char>>, b: Option<Seq<char>>) -> Option<Seq<char>> {
    if a is Some {
        a
    } else {
        b
    }
}

/// Why a section cannot be used: the first that is wrong of the nameservers, the
/// fallback nameservers, the default nameservers, the address to listen on, the
/// fixed addresses, the policies and the made-up addresses.
pub open spec fn dns_error(raw: RawConfig, g: Gathered) -> Option<Seq<char>> {
    match active(raw) {
        Some(d) => or_else(
            servers_error(list_of(d.nameserver), g.main@),
            or_else(
                servers_error(list_of(d.fallback), g.fallback@),
                or_else(
                    servers_error(list_of(d.default_nameserver), g.default@),
                    or_else(
                        listen_error(d.listen),
                        or_else(fixed_error(raw), or_else(policy_error(d, g), fake_error(d))),
                    ),
                ),
            ),
        ),
        None => fixed_error(raw),
    }
}

/// The nameservers that were read.
pub open spec fn taken(parsed: Seq<Read>) -> Seq<NameServerEntry> {
    parsed.map_values(|x: Read| x->Ok_0)
}

/// The nameserver that is asked where the section is switched off.
pub open spec fn only_server(s: Seq<NameServerEntry>) -> bool {
    &&& s.len() == 1
    &&& s[0].proxy is None
    &&& s[0].url == (nameserver::NameServerUrl::Udp {
        addr: nameserver::HostOrIp::Ip(IpAddr::V4(0x08080808)),
        port: 53,
    })
}

/// Whether policies are those of a section: none where it has no keys.
pub open spec fn policy_matches(p: Option<Vec<PolicyEntry>>, d: RawDns, g: Gathered) -> bool {
    &&& p is Some == (policy_keys(d).len() > 0)
    &&& p matches Some(v) ==> section_policies(d, g) == Ok::<
        Seq<nameserver::PolicyView>,
        Seq<char>,
    >(nameserver::policy_views(v@))
}

/// Whether a plan is what a section says.
pub open spec fn section_matches(
    p: DnsPlan,
    d: RawDns,
    g: Gathered,
    cache_dir: Option<Seq<char>>,
) -> bool {
    &&& p.main@ == taken(g.main@)
    &&& p.fallback@ == taken(g.fallback@)
    &&& p.default@ == taken(g.default@)
    &&& p.mode == mode_of(text::opt_view(d.enhanced_mode))
    &&& p.listen == (match d.listen {
        Some(v) => if v@.len() > 0 {
            net::socket(v@)
        } else {
            None
        },
        None => None,
    })
    &&& p.use_system_hosts == (p.use_hosts && d.use_system_hosts != Some(false))
    &&& policy_matches(p.policy, d, g)
    &&& p.filter is Some == (g.fallback@.len() > 0)
    &&& p.filter matches Some(f) ==> filter_matches(f, d.fallback_filter, g.countries)
    &&& p.fake_ip is Some == fakes(d)
    &&& p.fake_ip matches Some(f) ==> fake_ip_matches(f, d, cache_dir)
}

/// Whether a plan is what a configuration says.
pub open spec fn plan_matches(
    p: DnsPlan,
    raw: RawConfig,
    g: Gathered,
    cache_dir: Option<Seq<char>>,
) -> bool {
    &&& hosts_view(p.hosts@) == fixed_hosts(raw)
    &&& p.use_hosts == (match raw.dns {
        Some(d) => d.use_hosts != Some(false),
        None => true,
    })
    &&& match active(raw) {
        Some(d) => section_matches(p, d, g, cache_dir),
        None => {
            &&& only_server(p.main@)
            &&& p.fallback@.len() == 0
            &&& p.default@.len() == 0
            &&& p.mode == DnsMode::Normal
            &&& p.listen is None
            &&& !p.use_system_hosts
            &&& p.policy is None
            &&& p.filter is None
            &&& p.fake_ip is None
        },
    }
}

fn take_servers(servers: &Option<Vec<String>>, parsed: Vec<Read>) -> (r: Result<
    Vec<NameServerEntry>,
    String,
>)
    requires
        list_of(*servers).len() == parsed@.len(),
    ensures
        (match r {
            Ok(v) => servers_error(list_of(*servers), parsed@) is None && v@ == taken(parsed@),
            Err(e) => servers_error(list_of(*servers), parsed@) == Some(e@),
        }),
{
    match servers {
        Some(v) => nameserver::parse_nameserver_entries(v, parsed),
        None => {
            let none = Vec::new();
            nameserver::parse_nameserver_entries(&none, parsed)
        },
    }
}

fn take_hosts(raw: &RawConfig) -> (r: Result<HostList, String>)
    ensures
        (match r {
            Ok(v) => fixed_error(*raw) is None && hosts_view(v@) == fixed_hosts(*raw),
            Err(e) => fixed_error(*raw) == Some(e@),
        }),
{
    match &raw.hosts {
        Some(h) => build_hosts_trie(Some(h)),
        None => {
            let v: HostList = Vec::new();
            assert(hosts_view(v@) =~= Seq::empty());
            Ok(v)
        },
    }
}

fn yes_unless(o: Option<bool>) -> (r: bool)
    ensures
        r == (o != Some(false)),
{
    match o {
        Some(b) => b,
        None => true,
    }
}

fn keys_of(v: &Vec<(String, RawNspValue)>) -> (out: Vec<String>)
    ensures
        text::views(out@) == v@.map_values(|x: (String, RawNspValue)| x.0@),
{
    let ghost all = v@.map_values(|x: (String, RawNspValue)| x.0@);
    let mut out = text::no_strings();
    let mut i: usize = 0;
    while i < v.len()
        invariant
            i <= v@.len(),
            all == v@.map_values(|x: (String, RawNspValue)| x.0@),
            text::views(out@) == all.take(i as int),
        decreases v@.len() - i,
    {
        text::push_string(&mut out, v[i].0.clone());
        assert(all.take(i + 1) =~= all.take(i as int).push(all[i as int]));
        i += 1;
    }
    assert(all.take(i as int) =~= all);
    out
}

fn take_policy(d: &RawDns, servers: Vec<Vec<PolicyServer>>, sites: bool) -> (r: Result<
    Option<Vec<PolicyEntry>>,
    String,
>)
    requires
        servers@.len() == policy_keys(*d).len(),
    ensures
        (match (
            r,
            nameserver::policies_of(
                policy_keys(*d),
                nameserver::server_lists(servers@),
                sites,
                policy_keys(*d).len(),
            ),
        ) {
            (Ok(p), Ok(list)) => {
                &&& p is Some == (policy_keys(*d).len() > 0)
                &&& p matches Some(v) ==> nameserver::policy_views(v@) == list
            },
            (Err(e), Err(m)) => e@ == m,
            _ => false,
        }),
{
    match &d.nameserver_policy {
        Some(v) => {
            if v.len() == 0 {
                return Ok(None);
            }
            let keys = keys_of(v);
            assert(text::views(keys@) == policy_keys(*d));
            assert(keys@.len() == text::views(keys@).len());
            match nameserver::build_nameserver_policy(&keys, servers, sites) {
                Ok(p) => Ok(Some(p)),
                Err(e) => Err(e),
            }
        },
        None => Ok(None),
    }
}

fn take_fake_ip(d: &RawDns, mode: DnsMode, cache_dir: Option<&str>) -> (r: Result<
    Option<FakeIpPlan>,
    String,
>)
    requires
        (mode == DnsMode::FakeIp) == fakes(*d),
    ensures
        (match r {
            Ok(f) => {
                &&& fake_error(*d) is None
                &&& f is Some == fakes(*d)
                &&& f matches Some(x) ==> fake_ip_matches(
                    x,
                    *d,
                    match cache_dir {
                        Some(c) => Some(c@),
                        None => None,
                    },
                )
            },
            Err(e) => fake_error(*d) == Some(e@),
        }),
{
    if mode == DnsMode::FakeIp {
        match install_fakeip(d, cache_dir) {
            Ok(f) => Ok(Some(f)),
            Err(e) => Err(e),
        }
    } else {
        Ok(None)
    }
}

/// How names are answered, given what was gathered. Where the section is switched
/// off, one public nameserver is asked.
pub fn parse_dns(raw: &RawConfig, g: Gathered, cache_dir: Option<&str>) -> (r: Result<
    DnsPlan,
    String,
>)
    requires
        gathered_for(g, *raw),
    ensures
        (match r {
            Ok(p) => dns_error(*raw, g) is None && plan_matches(
                p,
                *raw,
                g,
                match cache_dir {
                    Some(c) => Some(c@),
                    None => None,
                },
            ),
            Err(e) => dns_error(*raw, g) == Some(e@),
        }),
{
    let use_hosts = match &raw.dns {
        Some(d) => yes_unless(d.use_hosts),
        None => true,
    };
    if let Some(d) = &raw.dns {
        let on = match d.enable {
            Some(b) => b,
            None => false,
        };
        if on {
            assert(active(*raw) == Some(*d));
            let main = match take_servers(&d.nameserver, g.main) {
                Ok(v) => v,
                Err(e) => return Err(e),
            };
            let fallback = match take_servers(&d.fallback, g.fallback) {
                Ok(v) => v,
                Err(e) => return Err(e),
            };
            let default = match take_servers(&d.default_nameserver, g.default) {
                Ok(v) => v,
                Err(e) => return Err(e),
            };
            let mode = read_mode(&d.enhanced_mode);
            let listen = match &d.listen {
                Some(s) => match parse_optional_socket_addr("dns.listen", Some(s.as_str())) {
                    Ok(a) => a,
                    Err(e) => {
                        proof {
                            reveal_strlit("invalid ");
                            reveal_strlit("dns.listen");
                            reveal_strlit(" socket address '");
                            reveal_strlit("invalid dns.listen socket address '");
                            assert("invalid "@ + "dns.listen"@ + " socket address '"@
                                =~= "invalid dns.listen socket address '"@);
                        }
                        return Err(e);
                    },
                },
                None => None,
            };
            let hosts = match take_hosts(raw) {
                Ok(v) => v,
                Err(e) => return Err(e),
            };
            let policy = match take_policy(d, g.policy, g.sites) {
                Ok(p) => p,
                Err(e) => return Err(e),
            };
            let filter = if fallback.len() > 0 {
                match &d.fallback_filter {
                    Some(f) => Some(build_fallback_filter(Some(f), g.countries)),
                    None => Some(build_fallback_filter(None, g.countries)),
                }
            } else {
                None
            };
            let fake_ip = match take_fake_ip(d, mode, cache_dir) {
                Ok(f) => f,
                Err(e) => return Err(e),
            };
            return Ok(
                DnsPlan {
                    main,
                    fallback,
                    default,
                    mode,
                    listen,
                    hosts,
                    use_hosts,
                    use_system_hosts: use_hosts && yes_unless(d.use_system_hosts),
                    policy,
                    filter,
                    fake_ip,
                },
            );
        }
    }
    assert(active(*raw) is None);
    let hosts = match take_hosts(raw) {
        Ok(v) => v,
        Err(e) => return Err(e),
    };
    let mut only: Vec<NameServerEntry> = Vec::new();
    only.push(
        NameServerEntry {
            url: nameserver::NameServerUrl::Udp {
                addr: nameserver::HostOrIp::Ip(IpAddr::V4(0x08080808)),
                port: 53,
            },
            proxy: None,
        },
    );
    Ok(
        DnsPlan {
            main: only,
            fallback: Vec::new(),
            default: Vec::new(),
            mode: DnsMode::Normal,
            listen: None,
            hosts,
            use_hosts,
            use_system_hosts: false,
            policy: None,
            filter: None,
            fake_ip: None,
        },
    )
}

} // verus!
