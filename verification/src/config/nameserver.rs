//! Nameservers, and which names go to which of them.

use crate::net::IpAddr;
use crate::text;
use vstd::prelude::*;
use vstd::string::*;

verus! {

/// A server by its name or its address.
#[derive(Clone, Debug)]
pub enum HostOrIp {
    Host(String),
    Ip(IpAddr),
}

/// How a nameserver is reached.
#[derive(Clone, Debug)]
pub enum NameServerUrl {
    Udp { addr: HostOrIp, port: u16 },
    Tcp { addr: HostOrIp, port: u16 },
    Tls { addr: HostOrIp, port: u16, sni: String },
    Https { addr: HostOrIp, port: u16, path: String, sni: String },
    /// Every query is answered with this code.
    RCode { code: u16 },
}

/// A nameserver and the proxy that it is reached through.
#[derive(Clone, Debug)]
pub struct NameServerEntry {
    pub url: NameServerUrl,
    pub proxy: Option<String>,
}

/// Where the nameserver is, if it is asked at all.
pub open spec fn address_of(u: NameServerUrl) -> Option<HostOrIp> {
    match u {
        NameServerUrl::Udp { addr, .. } => Some(addr),
        NameServerUrl::Tcp { addr, .. } => Some(addr),
        NameServerUrl::Tls { addr, .. } => Some(addr),
        NameServerUrl::Https { addr, .. } => Some(addr),
        NameServerUrl::RCode { .. } => None,
    }
}

/// Whether the address of the nameserver has to be found first.
pub open spec fn needs_bootstrap(u: NameServerUrl) -> bool {
    address_of(u) matches Some(a) && a is Host
}

/// The nameserver at another address.
pub open spec fn at_address(u: NameServerUrl, a: HostOrIp) -> NameServerUrl {
    match u {
        NameServerUrl::Udp { port, .. } => NameServerUrl::Udp { addr: a, port },
        NameServerUrl::Tcp { port, .. } => NameServerUrl::Tcp { addr: a, port },
        NameServerUrl::Tls { port, sni, .. } => NameServerUrl::Tls { addr: a, port, sni },
        NameServerUrl::Https { port, path, sni, .. } => NameServerUrl::Https {
            addr: a,
            port,
            path,
            sni,
        },
        NameServerUrl::RCode { code } => NameServerUrl::RCode { code },
    }
}

/// What comes of reading a nameserver.
pub type Read = Result<NameServerEntry, String>;

/// The first nameserver, from a position on, that cannot be read.
pub open spec fn first_unread(parsed: Seq<Read>, from: int) -> Option<int>
    decreases parsed.len() - from,
{
    if from < 0 || from >= parsed.len() {
        None
    } else if parsed[from] is Err {
        Some(from)
    } else {
        first_unread(parsed, from + 1)
    }
}

/// Takes the nameservers that were read. Every one must be readable.
pub fn parse_nameserver_entries(servers: &Vec<String>, parsed: Vec<Read>) -> (r: Result<
    Vec<NameServerEntry>,
    String,
>)
    requires
        servers@.len() == parsed@.len(),
    ensures
        (match (r, first_unread(parsed@, 0)) {
            (Ok(v), None) => v@ == parsed@.map_values(|x: Read| x->Ok_0),
            (Err(e), Some(i)) => e@ == "failed to parse nameserver '"@ + servers@[i]@ + "': "@
                + parsed@[i]->Err_0@,
            _ => false,
        }),
{
    let ghost all = parsed@;
    let ghost want = all.map_values(|x: Read| x->Ok_0);
    let mut rest = parsed;
    let mut out: Vec<NameServerEntry> = Vec::new();
    let mut i: usize = 0;
    while i < servers.len()
        invariant
            i <= servers@.len(),
            all == parsed@,
            servers@.len() == all.len(),
            want == all.map_values(|x: Read| x->Ok_0),
            rest@ == all.skip(i as int),
            out@ == want.take(i as int),
            first_unread(all, 0) == first_unread(all, i as int),
        decreases servers@.len() - i,
    {
        match rest.remove(0) {
            Ok(e) => {
                out.push(e);
                assert(want.take(i + 1) =~= want.take(i as int).push(e));
            },
            Err(e) => {
                return Err(
                    "failed to parse nameserver '".to_owned().concat(servers[i].as_str()).concat(
                        "': ",
                    ).concat(e.as_str()),
                );
            },
        }
        assert(rest@ =~= all.skip(i + 1));
        i += 1;
    }
    assert(want.take(i as int) =~= want);
    Ok(out)
}

/// Whether a nameserver can be asked for the addresses of others: it is reached
/// without a proxy, at an address, and answers.
pub open spec fn can_bootstrap(e: NameServerEntry) -> bool {
    e.proxy is None && !needs_bootstrap(e.url) && !(e.url is RCode)
}

/// The positions of the nameservers that can be asked for the addresses of others.
pub open spec fn bootstraps(s: Seq<NameServerEntry>) -> Seq<int>
    decreases s.len(),
{
    if s.len() == 0 {
        Seq::empty()
    } else {
        let b = bootstraps(s.drop_last());
        if can_bootstrap(s.last()) {
            b.push(s.len() - 1)
        } else {
            b
        }
    }
}

/// Positions as integers.
pub open spec fn positions(v: Seq<usize>) -> Seq<int> {
    v.map_values(|x: usize| x as int)
}

/// Which nameservers are asked for the addresses of others: from the default ones,
/// or from the main ones where there are no default ones. Gives whether it is from
/// the default ones, and their positions.
pub fn build_policy_bootstrap_clients(
    default_ns: &Vec<NameServerEntry>,
    main: &Vec<NameServerEntry>,
) -> (r: (bool, Vec<usize>))
    ensures
        r.0 == (default_ns@.len() > 0),
        positions(r.1@) == bootstraps(
            if default_ns@.len() > 0 {
                default_ns@
            } else {
                main@
            },
        ),
{
    let from_default = default_ns.len() > 0;
    let source = if from_default {
        default_ns
    } else {
        main
    };
    let mut out: Vec<usize> = Vec::new();
    let mut i: usize = 0;
    assert(source@.take(0) =~= Seq::empty());
    assert(positions(out@) =~= Seq::empty());
    while i < source.len()
        invariant
            i <= source@.len(),
            positions(out@) == bootstraps(source@.take(i as int)),
        decreases source@.len() - i,
    {
        assert(source@.take(i + 1).drop_last() =~= source@.take(i as int));
        assert(source@.take(i + 1).last() == source@[i as int]);
        let e = &source[i];
        let direct = match &e.proxy {
            Some(_) => false,
            None => true,
        };
        if direct && at_known_address(&e.url) {
            let ghost had = positions(out@);
            out.push(i);
            assert(positions(out@) =~= had.push(i as int));
        }
        i += 1;
    }
    assert(source@.take(i as int) =~= source@);
    (from_default, out)
}

fn at_known_address(u: &NameServerUrl) -> (r: bool)
    ensures
        r == (!needs_bootstrap(*u) && !(*u is RCode)),
{
    let a = match u {
        NameServerUrl::Udp { addr, .. } => addr,
        NameServerUrl::Tcp { addr, .. } => addr,
        NameServerUrl::Tls { addr, .. } => addr,
        NameServerUrl::Https { addr, .. } => addr,
        NameServerUrl::RCode { .. } => return false,
    };
    match a {
        HostOrIp::Host(_) => false,
        HostOrIp::Ip(_) => true,
    }
}

/// The parts among parts that are not blank, without blanks around them.
pub open spec fn filled_parts(p: Seq<Seq<char>>) -> Seq<Seq<char>>
    decreases p.len(),
{
    if p.len() == 0 {
        Seq::empty()
    } else {
        let r = filled_parts(p.drop_last());
        let last = text::trimmed(p.last());
        if last.len() > 0 {
            r.push(last)
        } else {
            r
        }
    }
}

/// The keys that a list of names after a prefix stands for.
pub open spec fn prefixed_keys(key: Seq<char>, prefix: Seq<char>) -> Seq<Seq<char>> {
    filled_parts(text::parts(key.skip(prefix.len() as int), ',')).map_values(
        |p: Seq<char>| prefix + p,
    )
}

/// The keys that a key of a policy stands for: one for each name of a list. A
/// prefix before the list is of every name.
pub open spec fn expanded_keys(key: Seq<char>) -> Seq<Seq<char>> {
    let t = text::trimmed(key);
    let l = text::ascii_lower(t);
    if "geosite:"@.is_prefix_of(l) {
        prefixed_keys(t, "geosite:"@)
    } else if "rule-set:"@.is_prefix_of(l) {
        prefixed_keys(t, "rule-set:"@)
    } else {
        filled_parts(text::parts(t, ','))
    }
}

fn fill_parts(p: &Vec<String>) -> (out: Vec<String>)
    ensures
        text::views(out@) == filled_parts(text::views(p@)),
{
    let ghost all = text::views(p@);
    let mut out = text::no_strings();
    let mut i: usize = 0;
    assert(all.take(0) =~= Seq::empty());
    while i < p.len()
        invariant
            i <= p@.len(),
            all == text::views(p@),
            text::views(out@) == filled_parts(all.take(i as int)),
        decreases p@.len() - i,
    {
        assert(all.take(i + 1).drop_last() =~= all.take(i as int));
        assert(all.take(i + 1).last() == p@[i as int]@);
        let t = text::trim(p[i].as_str());
        if t.as_str().unicode_len() > 0 {
            text::push_string(&mut out, t);
        }
        i += 1;
    }
    assert(all.take(i as int) =~= all);
    out
}

fn prefix_keys(key: &str, prefix: &str) -> (out: Vec<String>)
    requires
        prefix@.len() <= key@.len(),
    ensures
        text::views(out@) == prefixed_keys(key@, prefix@),
{
    let n: usize = prefix.unicode_len();
    let rest = text::skip(key, n);
    let parts = text::split(rest.as_str(), ',');
    let names = fill_parts(&parts);
    let ghost want = prefixed_keys(key@, prefix@);
    let mut out = text::no_strings();
    let mut i: usize = 0;
    while i < names.len()
        invariant
            i <= names@.len(),
            want == text::views(names@).map_values(|p: Seq<char>| prefix@ + p),
            text::views(out@) == want.take(i as int),
        decreases names@.len() - i,
    {
        let s = prefix.to_owned().concat(names[i].as_str());
        text::push_string(&mut out, s);
        assert(want.take(i + 1) =~= want.take(i as int).push(s@));
        i += 1;
    }
    assert(want.take(i as int) =~= want);
    out
}

/// The keys that a key of a policy stands for.
pub fn expand_policy_keys(key: &str) -> (out: Vec<String>)
    ensures
        text::views(out@) == expanded_keys(key@),
{
    let t = text::trim(key);
    let l = text::to_ascii_lower(t.as_str());
    assert(l@.len() == t@.len());
    if text::starts_with(l.as_str(), "geosite:") {
        prefix_keys(t.as_str(), "geosite:")
    } else if text::starts_with(l.as_str(), "rule-set:") {
        prefix_keys(t.as_str(), "rule-set:")
    } else {
        let parts = text::split(t.as_str(), ',');
        fill_parts(&parts)
    }
}

/// Which names a policy is for.
#[derive(Clone, Debug)]
pub enum PolicyPattern {
    /// One name.
    Exact(String),
    /// The names below one.
    Wildcard(String),
    /// The names of a category of sites.
    Geosite(String),
}

/// A [`PolicyPattern`] with its text as a sequence.
pub enum PatternView {
    Exact(Seq<char>),
    Wildcard(Seq<char>),
    Geosite(Seq<char>),
}

impl View for PolicyPattern {
    type V = PatternView;

    open spec fn view(&self) -> PatternView {
        match self {
            PolicyPattern::Exact(s) => PatternView::Exact(s@),
            PolicyPattern::Wildcard(s) => PatternView::Wildcard(s@),
            PolicyPattern::Geosite(s) => PatternView::Geosite(s@),
        }
    }
}

/// Patterns as mathematical values.
pub open spec fn pattern_views(v: Seq<PolicyPattern>) -> Seq<PatternView> {
    v.map_values(|p: PolicyPattern| p@)
}

/// Which names one key is for. Categories of sites need their database, and other
/// prefixes are not known.
pub open spec fn key_pattern(key: Seq<char>, sites: bool) -> Option<PatternView> {
    let l = text::ascii_lower(key);
    if "geosite:"@.is_prefix_of(l) {
        let category = text::trimmed(l.skip("geosite:"@.len() as int));
        if category.len() > 0 && sites {
            Some(PatternView::Geosite(category))
        } else {
            None
        }
    } else if l.contains(':') || l.len() == 0 {
        None
    } else if "+."@.is_prefix_of(l) {
        Some(PatternView::Wildcard(l))
    } else {
        Some(PatternView::Exact(l))
    }
}

/// Which names keys are for.
pub open spec fn keys_patterns(keys: Seq<Seq<char>>, sites: bool) -> Seq<PatternView>
    decreases keys.len(),
{
    if keys.len() == 0 {
        Seq::empty()
    } else {
        let r = keys_patterns(keys.drop_last(), sites);
        match key_pattern(keys.last(), sites) {
            Some(p) => r.push(p),
            None => r,
        }
    }
}

fn pattern_of(key: &str, sites: bool) -> (r: Option<PolicyPattern>)
    ensures
        (match r {
            Some(p) => key_pattern(key@, sites) == Some(p@),
            None => key_pattern(key@, sites) is None,
        }),
{
    let l = text::to_ascii_lower(key);
    if text::starts_with(l.as_str(), "geosite:") {
        let n: usize = "geosite:".unicode_len();
        let rest = text::skip(l.as_str(), n);
        let category = text::trim(rest.as_str());
        if category.as_str().unicode_len() > 0 && sites {
            Some(PolicyPattern::Geosite(category))
        } else {
            None
        }
    } else if text::contains_char(l.as_str(), ':') || l.as_str().unicode_len() == 0 {
        None
    } else if text::starts_with(l.as_str(), "+.") {
        Some(PolicyPattern::Wildcard(l))
    } else {
        Some(PolicyPattern::Exact(l))
    }
}

/// Which names a policy is for.
pub fn policy_patterns(key: &str, sites: bool) -> (out: Vec<PolicyPattern>)
    ensures
        pattern_views(out@) == keys_patterns(expanded_keys(key@), sites),
{
    let keys = expand_policy_keys(key);
    let ghost all = text::views(keys@);
    let mut out: Vec<PolicyPattern> = Vec::new();
    let mut i: usize = 0;
    assert(all.take(0) =~= Seq::empty());
    assert(pattern_views(out@) =~= Seq::empty());
    while i < keys.len()
        invariant
            i <= keys@.len(),
            all == text::views(keys@),
            pattern_views(out@) == keys_patterns(all.take(i as int), sites),
        decreases keys@.len() - i,
    {
        assert(all.take(i + 1).drop_last() =~= all.take(i as int));
        assert(all.take(i + 1).last() == keys@[i as int]@);
        if let Some(p) = pattern_of(keys[i].as_str(), sites) {
            let ghost had = pattern_views(out@);
            out.push(p);
            assert(pattern_views(out@) =~= had.push(p@));
        }
        i += 1;
    }
    assert(all.take(i as int) =~= all);
    out
}

/// A nameserver of a policy: what was read, and the address that was found for
/// its name.
#[derive(Debug)]
pub struct PolicyServer {
    pub url: Result<NameServerUrl, String>,
    pub address: Option<IpAddr>,
}

/// The nameserver that is asked: one that is read, at an address.
pub open spec fn usable(s: PolicyServer) -> Option<NameServerUrl> {
    match s.url {
        Ok(u) => if needs_bootstrap(u) {
            match s.address {
                Some(ip) => Some(at_address(u, HostOrIp::Ip(ip))),
                None => None,
            }
        } else {
            Some(u)
        },
        Err(_) => None,
    }
}

/// The nameservers that are asked.
pub open spec fn usable_servers(s: Seq<PolicyServer>) -> Seq<NameServerUrl>
    decreases s.len(),
{
    if s.len() == 0 {
        Seq::empty()
    } else {
        let r = usable_servers(s.drop_last());
        match usable(s.last()) {
            Some(u) => r.push(u),
            None => r,
        }
    }
}

/// How it is told that no nameserver of a policy can be asked.
pub open spec fn no_servers(key: Seq<char>) -> Seq<char> {
    "nameserver-policy entry '"@ + key
        + "' has no valid nameservers after skipping unsupported entries (Class A per ADR-0002 — DNS leakage risk for internal/corporate domains)"@
}

/// Puts the address that was found in place of the name of a nameserver. One whose
/// name has no address is left out.
pub fn resolve_policy_hostname_url(url: NameServerUrl, address: Option<IpAddr>) -> (r: Option<
    NameServerUrl,
>)
    ensures
        r == (if needs_bootstrap(url) {
            match address {
                Some(ip) => Some(at_address(url, HostOrIp::Ip(ip))),
                None => None,
            }
        } else {
            Some(url)
        }),
{
    match url {
        NameServerUrl::Udp { addr: HostOrIp::Host(_), port } => match address {
            Some(ip) => Some(NameServerUrl::Udp { addr: HostOrIp::Ip(ip), port }),
            None => None,
        },
        NameServerUrl::Tcp { addr: HostOrIp::Host(_), port } => match address {
            Some(ip) => Some(NameServerUrl::Tcp { addr: HostOrIp::Ip(ip), port }),
            None => None,
        },
        NameServerUrl::Tls { addr: HostOrIp::Host(_), port, sni } => match address {
            Some(ip) => Some(NameServerUrl::Tls { addr: HostOrIp::Ip(ip), port, sni }),
            None => None,
        },
        NameServerUrl::Https { addr: HostOrIp::Host(_), port, path, sni } => match address {
            Some(ip) => Some(NameServerUrl::Https { addr: HostOrIp::Ip(ip), port, path, sni }),
            None => None,
        },
        other => Some(other),
    }
}

/// The nameservers of a policy that are asked. There must be one: a name that is
/// meant for them must not reach others.
pub fn build_policy_resolvers(key: &str, servers: Vec<PolicyServer>) -> (r: Result<
    Vec<NameServerUrl>,
    String,
>)
    ensures
        (match r {
            Ok(v) => v@.len() > 0 && v@ == usable_servers(servers@),
            Err(e) => usable_servers(servers@).len() == 0 && e@ == no_servers(key@),
        }),
{
    let ghost all = servers@;
    let mut rest = servers;
    let mut out: Vec<NameServerUrl> = Vec::new();
    let ghost mut i: int = 0;
    assert(all.take(0) =~= Seq::empty());
    while rest.len() > 0
        invariant
            0 <= i <= all.len(),
            rest@ == all.skip(i),
            out@ == usable_servers(all.take(i)),
        decreases rest@.len(),
    {
        assert(all.take(i + 1).drop_last() =~= all.take(i));
        assert(all.take(i + 1).last() == all[i]);
        let s = rest.remove(0);
        assert(s == all[i]);
        assert(rest@ =~= all.skip(i + 1));
        if let Ok(u) = s.url {
            if let Some(u) = resolve_policy_hostname_url(u, s.address) {
                out.push(u);
            }
        }
        proof {
            i = i + 1;
        }
    }
    assert(all.take(i) =~= all);
    if out.len() == 0 {
        return Err(
            "nameserver-policy entry '".to_owned().concat(key).concat(
                "' has no valid nameservers after skipping unsupported entries (Class A per ADR-0002 — DNS leakage risk for internal/corporate domains)",
            ),
        );
    }
    Ok(out)
}

/// A policy: its names and its nameservers.
#[derive(Clone, Debug)]
pub struct PolicyEntry {
    pub patterns: Vec<PolicyPattern>,
    pub nameservers: Vec<NameServerUrl>,
}

/// A policy as mathematical values.
pub struct PolicyView {
    pub patterns: Seq<PatternView>,
    pub nameservers: Seq<NameServerUrl>,
}

impl View for PolicyEntry {
    type V = PolicyView;

    open spec fn view(&self) -> PolicyView {
        PolicyView { patterns: pattern_views(self.patterns@), nameservers: self.nameservers@ }
    }
}

/// Policies as mathematical values.
pub open spec fn policy_views(v: Seq<PolicyEntry>) -> Seq<PolicyView> {
    v.map_values(|p: PolicyEntry| p@)
}

/// The policies of the first keys of a configuration. A key that is for no name is
/// passed over.
pub open spec fn policies_of(
    keys: Seq<Seq<char>>,
    servers: Seq<Seq<PolicyServer>>,
    sites: bool,
    n: nat,
) -> Result<Seq<PolicyView>, Seq<char>>
    decreases n,
{
    if n == 0 {
        Ok(Seq::empty())
    } else {
        match policies_of(keys, servers, sites, (n - 1) as nat) {
            Err(e) => Err(e),
            Ok(list) => {
                let key = keys[n - 1];
                let patterns = keys_patterns(expanded_keys(key), sites);
                let nameservers = usable_servers(servers[n - 1]);
                if patterns.len() == 0 {
                    Ok(list)
                } else if nameservers.len() == 0 {
                    Err(no_servers(key))
                } else {
                    Ok(list.push(PolicyView { patterns, nameservers }))
                }
            },
        }
    }
}

/// The nameservers of several policies as sequences.
pub open spec fn server_lists(v: Seq<Vec<PolicyServer>>) -> Seq<Seq<PolicyServer>> {
    v.map_values(|s: Vec<PolicyServer>| s@)
}

proof fn lemma_policies_err(
    keys: Seq<Seq<char>>,
    servers: Seq<Seq<PolicyServer>>,
    sites: bool,
    m: nat,
    n: nat,
)
    requires
        m <= n,
        policies_of(keys, servers, sites, m) is Err,
    ensures
        policies_of(keys, servers, sites, n) == policies_of(keys, servers, sites, m),
    decreases n,
{
    if m < n {
        lemma_policies_err(keys, servers, sites, m, (n - 1) as nat);
    }
}

/// The policies of a configuration, given what was read of the nameservers of each
/// key.
pub fn build_nameserver_policy(
    keys: &Vec<String>,
    servers: Vec<Vec<PolicyServer>>,
    sites: bool,
) -> (r: Result<Vec<PolicyEntry>, String>)
    requires
        keys@.len() == servers@.len(),
    ensures
        (match (
            r,
            policies_of(text::views(keys@), server_lists(servers@), sites, keys@.len()),
        ) {
            (Ok(v), Ok(p)) => policy_views(v@) == p,
            (Err(e), Err(m)) => e@ == m,
            _ => false,
        }),
{
    let ghost k = text::views(keys@);
    let ghost all = server_lists(servers@);
    let mut rest = servers;
    let mut out: Vec<PolicyEntry> = Vec::new();
    let mut i: usize = 0;
    assert(policy_views(out@) =~= Seq::empty());
    while i < keys.len()
        invariant
            i <= keys@.len(),
            keys@.len() == all.len(),
            k == text::views(keys@),
            all == server_lists(servers@),
            rest@.len() == all.len() - i,
            server_lists(rest@) == all.skip(i as int),
            policies_of(k, all, sites, i as nat) == Ok::<Seq<PolicyView>, Seq<char>>(
                policy_views(out@),
            ),
        decreases keys@.len() - i,
    {
        let key = keys[i].as_str();
        assert(k[i as int] == key@);
        assert(server_lists(rest@)[0] == rest@[0]@);
        let ghost before = rest@;
        let s = rest.remove(0);
        assert(s@ == all[i as int]);
        assert(server_lists(rest@) =~= all.skip(i + 1)) by {
            assert forall|j: int| 0 <= j < rest@.len() implies server_lists(rest@)[j]
                == all.skip(i + 1)[j] by {
                assert(rest@[j] == before[j + 1]);
                assert(server_lists(before)[j + 1] == all.skip(i as int)[j + 1]);
            }
        }
        let patterns = policy_patterns(key, sites);
        if patterns.len() > 0 {
            match build_policy_resolvers(key, s) {
                Ok(nameservers) => {
                    let ghost had = policy_views(out@);
                    let e = PolicyEntry { patterns, nameservers };
                    out.push(e);
                    assert(policy_views(out@) =~= had.push(e@));
                },
                Err(e) => {
                    proof {
                        lemma_policies_err(k, all, sites, (i + 1) as nat, keys@.len());
                    }
                    return Err(e);
                },
            }
        }
        i += 1;
    }
    Ok(out)
}

/// No policy is without names or without nameservers.
pub proof fn law_every_policy_can_be_asked(
    keys: Seq<Seq<char>>,
    servers: Seq<Seq<PolicyServer>>,
    sites: bool,
    n: nat,
    i: int,
)
    requires
        policies_of(keys, servers, sites, n) is Ok,
        0 <= i < policies_of(keys, servers, sites, n)->Ok_0.len(),
    ensures
        policies_of(keys, servers, sites, n)->Ok_0[i].patterns.len() > 0,
        policies_of(keys, servers, sites, n)->Ok_0[i].nameservers.len() > 0,
    decreases n,
{
    if n > 0 {
        let before = policies_of(keys, servers, sites, (n - 1) as nat);
        if i < before->Ok_0.len() {
            law_every_policy_can_be_asked(keys, servers, sites, (n - 1) as nat, i);
        }
    }
}

/// What came of asking for the address of a name.
#[derive(Debug)]
pub enum LookupEvent {
    /// The addresses that came back.
    Answer(Vec<IpAddr>),
    Failed,
    TimedOut,
}

/// What to do next to find the address of a name.
#[derive(Clone, Copy, Debug, PartialEq, Eq, Structural)]
pub enum LookupStep {
    /// Ask this nameserver, for at most three seconds.
    Ask(usize),
    Found(IpAddr),
    NotFound,
}

/// The first step: the first nameserver is asked.
pub fn resolve_policy_host(clients: usize) -> (s: LookupStep)
    ensures
        s == (if clients > 0 {
            LookupStep::Ask(0)
        } else {
            LookupStep::NotFound
        }),
{
    if clients > 0 {
        LookupStep::Ask(0)
    } else {
        LookupStep::NotFound
    }
}

/// The step after a nameserver was asked: its first address is taken, else the
/// next nameserver is asked.
pub fn after_lookup(clients: usize, asked: usize, event: &LookupEvent) -> (s: LookupStep)
    requires
        asked < clients,
    ensures
        s == (match *event {
            LookupEvent::Answer(ips) if ips@.len() > 0 => LookupStep::Found(ips@[0]),
            _ => if asked + 1 < clients {
                LookupStep::Ask((asked + 1) as usize)
            } else {
                LookupStep::NotFound
            },
        }),
{
    if let LookupEvent::Answer(ips) = event {
        if ips.len() > 0 {
            return LookupStep::Found(ips[0]);
        }
    }
    if asked + 1 < clients {
        LookupStep::Ask(asked + 1)
    } else {
        LookupStep::NotFound
    }
}

} // verus!
