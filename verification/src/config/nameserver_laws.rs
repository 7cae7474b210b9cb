//! What holds of nameservers and of the names that go to them.

use crate::config::nameserver;
use crate::config::nameserver::{
    HostOrIp, LookupEvent, LookupStep, NameServerEntry, NameServerUrl, PatternView, PolicyServer,
    Read,
};
use crate::net::IpAddr;
use crate::text;
use crate::text_laws;
use vstd::prelude::*;
use vstd::string::*;

verus! {

/// Putting the address that was found in place of a nameserver's name changes the address
/// and nothing else: the protocol, the port, the path and the name of the server stay.
/// A nameserver that has an address stays as it is, and one without an address cannot be
/// asked where none was found.
pub proof fn law_a_found_address_changes_the_address_alone(u: NameServerUrl, a: Option<IpAddr>)
    ensures
        ({
            let r = nameserver::usable(PolicyServer { url: Ok(u), address: a });
            match u {
                NameServerUrl::Udp { addr, port } => match (addr, a) {
                    (HostOrIp::Ip(_), _) => r == Some(u),
                    (HostOrIp::Host(_), None) => r is None,
                    (HostOrIp::Host(_), Some(ip)) => r matches Some(NameServerUrl::Udp {
                        addr: b,
                        port: q,
                    }) && b == HostOrIp::Ip(ip) && q == port,
                },
                NameServerUrl::Tcp { addr, port } => match (addr, a) {
                    (HostOrIp::Ip(_), _) => r == Some(u),
                    (HostOrIp::Host(_), None) => r is None,
                    (HostOrIp::Host(_), Some(ip)) => r matches Some(NameServerUrl::Tcp {
                        addr: b,
                        port: q,
                    }) && b == HostOrIp::Ip(ip) && q == port,
                },
                NameServerUrl::Tls { addr, port, sni } => match (addr, a) {
                    (HostOrIp::Ip(_), _) => r == Some(u),
                    (HostOrIp::Host(_), None) => r is None,
                    (HostOrIp::Host(_), Some(ip)) => r matches Some(NameServerUrl::Tls {
                        addr: b,
                        port: q,
                        sni: n,
                    }) && b == HostOrIp::Ip(ip) && q == port && n == sni,
                },
                NameServerUrl::Https { addr, port, path, sni } => match (addr, a) {
                    (HostOrIp::Ip(_), _) => r == Some(u),
                    (HostOrIp::Host(_), None) => r is None,
                    (HostOrIp::Host(_), Some(ip)) => r matches Some(NameServerUrl::Https {
                        addr: b,
                        port: q,
                        path: p,
                        sni: n,
                    }) && b == HostOrIp::Ip(ip) && q == port && p == path && n == sni,
                },
                NameServerUrl::RCode { .. } => r == Some(u),
            }
        }),
{
}

/// A nameserver is resolved alike for itself and as one of a policy; one that could not
/// be read is never asked.
pub proof fn law_nameservers_are_resolved_alike(
    u: NameServerUrl,
    a: Option<IpAddr>,
    r: Option<NameServerUrl>,
    reason: String,
)
    requires
        call_ensures(nameserver::resolve_policy_hostname_url, (u, a), r),
    ensures
        r == nameserver::usable(PolicyServer { url: Ok(u), address: a }),
        nameserver::usable(PolicyServer { url: Err(reason), address: a }) is None,
{
}

/// The nameservers of a policy are asked in the order in which they are written, each
/// that can be asked once.
pub proof fn law_nameservers_keep_their_order(
    a: Seq<PolicyServer>,
    b: Seq<PolicyServer>,
    s: PolicyServer,
)
    ensures
        nameserver::usable_servers(a + b) == nameserver::usable_servers(a)
            + nameserver::usable_servers(b),
        nameserver::usable(s) matches Some(u) ==> nameserver::usable_servers(seq![s]) == seq![u],
        nameserver::usable(s) is None ==> nameserver::usable_servers(seq![s]).len() == 0,
    decreases b.len(),
{
    assert(seq![s].drop_last() =~= Seq::<PolicyServer>::empty());
    assert(nameserver::usable_servers(Seq::empty()) =~= Seq::<NameServerUrl>::empty());
    if let Some(u) = nameserver::usable(s) {
        assert(Seq::<NameServerUrl>::empty().push(u) =~= seq![u]);
    }
    let x = nameserver::usable_servers(a);
    if b.len() == 0 {
        assert(a + b =~= a);
        assert(x + nameserver::usable_servers(b) =~= x);
    } else {
        let r = b.drop_last();
        law_nameservers_keep_their_order(a, r, s);
        assert((a + b).drop_last() =~= a + r);
        assert((a + b).last() == b.last());
        let y = nameserver::usable_servers(r);
        if let Some(u) = nameserver::usable(b.last()) {
            assert(x + y.push(u) =~= (x + y).push(u));
        }
    }
}

/// Whether a policy has names and no nameserver for them.
pub open spec fn nobody_to_ask(
    keys: Seq<Seq<char>>,
    servers: Seq<Seq<PolicyServer>>,
    sites: bool,
    j: int,
) -> bool {
    nameserver::keys_patterns(nameserver::expanded_keys(keys[j]), sites).len() > 0
        && nameserver::usable_servers(servers[j]).len() == 0
}

/// Each policy whose key has names is kept with the names of its own key and the
/// nameservers of its own list; a configuration is refused exactly where some such
/// policy has nobody to ask.
pub proof fn law_policies_keep_their_nameservers(
    keys: Seq<Seq<char>>,
    servers: Seq<Seq<PolicyServer>>,
    sites: bool,
    n: nat,
)
    requires
        n <= keys.len(),
        n <= servers.len(),
    ensures
        nameserver::policies_of(keys, servers, sites, n) is Err <==> exists|j: int|
            0 <= j < n && #[trigger] nobody_to_ask(keys, servers, sites, j),
        nameserver::policies_of(keys, servers, sites, n) matches Ok(list) ==> (forall|j: int|
            #![trigger keys[j]]
            0 <= j < n && nameserver::keys_patterns(
                nameserver::expanded_keys(keys[j]),
                sites,
            ).len() > 0 ==> exists|i: int|
                0 <= i < list.len() && (#[trigger] list[i]).patterns == nameserver::keys_patterns(
                    nameserver::expanded_keys(keys[j]),
                    sites,
                ) && list[i].nameservers == nameserver::usable_servers(servers[j])),
    decreases n,
{
    if n > 0 {
        let m = (n - 1) as nat;
        law_policies_keep_their_nameservers(keys, servers, sites, m);
        let j = n - 1;
        if nameserver::policies_of(keys, servers, sites, m) is Ok && nobody_to_ask(
            keys,
            servers,
            sites,
            j,
        ) {
            assert(nameserver::policies_of(keys, servers, sites, n) is Err);
        }
        if nameserver::policies_of(keys, servers, sites, n) is Err
            && nameserver::policies_of(keys, servers, sites, m) is Ok {
            assert(nobody_to_ask(keys, servers, sites, j));
        }
        if let Ok(list) = nameserver::policies_of(keys, servers, sites, n) {
            let had = nameserver::policies_of(keys, servers, sites, m)->Ok_0;
            assert forall|j: int|
                #![trigger keys[j]]
                0 <= j < n && nameserver::keys_patterns(
                    nameserver::expanded_keys(keys[j]),
                    sites,
                ).len() > 0 implies exists|i: int|
                0 <= i < list.len() && (#[trigger] list[i]).patterns == nameserver::keys_patterns(
                    nameserver::expanded_keys(keys[j]),
                    sites,
                ) && list[i].nameservers == nameserver::usable_servers(servers[j]) by {
                if j < m {
                    let i = choose|i: int|
                        0 <= i < had.len() && (#[trigger] had[i]).patterns
                            == nameserver::keys_patterns(
                            nameserver::expanded_keys(keys[j]),
                            sites,
                        ) && had[i].nameservers == nameserver::usable_servers(servers[j]);
                    assert(list[i] == had[i]);
                } else {
                    assert(list[list.len() - 1].nameservers == nameserver::usable_servers(
                        servers[j],
                    ));
                }
            }
        }
    }
}

/// A key that is a name is a pattern for that name in small letters: for it and all
/// below it where it begins with `+.`, else for it alone. A category of sites is one
/// where sites are known and it is named. Nothing else is a pattern.
pub proof fn law_keys_are_patterns(key: Seq<char>, sites: bool)
    ensures
        ({
            let l = text::ascii_lower(key);
            let r = nameserver::key_pattern(key, sites);
            &&& r matches Some(PatternView::Exact(n)) ==> n == l && !l.contains(':')
                && !"+."@.is_prefix_of(l)
            &&& r matches Some(PatternView::Wildcard(n)) ==> n == l && "+."@.is_prefix_of(l)
            &&& r matches Some(PatternView::Geosite(c)) ==> sites && c.len() > 0
                && "geosite:"@.is_prefix_of(l) && c == text::trimmed(l.skip(8))
            &&& l.len() > 0 && !l.contains(':') ==> r is Some && !(r matches Some(
                PatternView::Geosite(_),
            ))
            &&& l.len() == 0 ==> r is None
            &&& "geosite:"@.is_prefix_of(l) && sites && text::trimmed(l.skip(8)).len() > 0 ==> r is Some
            &&& "geosite:"@.is_prefix_of(l) && !sites ==> r is None
        }),
{
    reveal_strlit("geosite:");
    reveal_strlit("+.");
    let l = text::ascii_lower(key);
    if "geosite:"@.is_prefix_of(l) {
        assert("geosite:"@[7] == ':');
        assert(l[7] == ':');
    }
    if "+."@.is_prefix_of(l) {
        assert(l.len() > 0);
    }
}

proof fn lemma_filled(p: Seq<Seq<char>>)
    requires
        forall|i: int|
            0 <= i < p.len() ==> (#[trigger] p[i]).len() > 0 && text::trimmed(p[i]) == p[i],
    ensures
        nameserver::filled_parts(p) == p,
    decreases p.len(),
{
    if p.len() > 0 {
        let r = p.drop_last();
        assert forall|i: int| 0 <= i < r.len() implies (#[trigger] r[i]).len() > 0 && text::trimmed(
            r[i],
        ) == r[i] by {
            assert(r[i] == p[i]);
        }
        lemma_filled(r);
        assert(p[p.len() - 1] == p.last());
        assert(r.push(p.last()) =~= p);
    } else {
        assert(nameserver::filled_parts(p) =~= p);
    }
}

proof fn lemma_joined_ends(p: Seq<Seq<char>>, sep: Seq<char>)
    requires
        p.len() > 0,
        p[0].len() > 0,
        p.last().len() > 0,
    ensures
        text::joined(p, sep).len() > 0,
        text::joined(p, sep)[0] == p[0][0],
        text::joined(p, sep).last() == p.last().last(),
        p[0].is_prefix_of(text::joined(p, sep)),
    decreases p.len(),
{
    let j = text::joined(p, sep);
    if p.len() > 1 {
        let r = p.drop_last();
        lemma_first_is_prefix(r, sep);
        let k = text::joined(r, sep);
        assert(j =~= k + sep + p.last());
        assert(r[0] == p[0]);
        assert(k.take(p[0].len() as int) == p[0]);
        assert(j.take(p[0].len() as int) =~= k.take(p[0].len() as int));
        assert(j[0] == j.take(p[0].len() as int)[0]);
    } else {
        assert(j == p[0]);
    }
}

proof fn lemma_first_is_prefix(p: Seq<Seq<char>>, sep: Seq<char>)
    requires
        p.len() > 0,
    ensures
        text::joined(p, sep).len() >= p[0].len(),
        text::joined(p, sep).take(p[0].len() as int) == p[0],
    decreases p.len(),
{
    if p.len() > 1 {
        let r = p.drop_last();
        lemma_first_is_prefix(r, sep);
        assert(r[0] == p[0]);
        assert(text::joined(p, sep).take(p[0].len() as int) =~= text::joined(r, sep).take(
            p[0].len() as int,
        ));
    } else {
        assert(text::joined(p, sep).take(p[0].len() as int) =~= p[0]);
    }
}

/// Names that can stand in a list.
pub open spec fn listable(p: Seq<Seq<char>>) -> bool {
    &&& p.len() > 0
    &&& forall|i: int|
        0 <= i < p.len() ==> (#[trigger] p[i]).len() > 0 && !p[i].contains(',') && !text::is_space(
            p[i][0],
        ) && !text::is_space(p[i].last())
}

proof fn lemma_listed(p: Seq<Seq<char>>)
    requires
        listable(p),
    ensures
        ({
            let list = text::joined(p, seq![',']);
            &&& list.len() > 0
            &&& !text::is_space(list[0])
            &&& !text::is_space(list.last())
            &&& nameserver::filled_parts(text::parts(list, ',')) == p
        }),
{
    assert(p[p.len() - 1] == p.last());
    lemma_joined_ends(p, seq![',']);
    text::law_split_undoes_join(p, ',');
    assert forall|i: int| 0 <= i < p.len() implies (#[trigger] p[i]).len() > 0 && text::trimmed(
        p[i],
    ) == p[i] by {
        text_laws::law_trimmed_texts_stay(p[i]);
    }
    lemma_filled(p);
}

proof fn lemma_prefixed(prefix: Seq<char>, p: Seq<Seq<char>>)
    requires
        listable(p),
        prefix.len() > 0,
        !text::is_space(prefix[0]),
        text::ascii_lower(prefix) == prefix,
    ensures
        ({
            let key = prefix + text::joined(p, seq![',']);
            &&& text::trimmed(key) == key
            &&& prefix.is_prefix_of(text::ascii_lower(key))
            &&& nameserver::prefixed_keys(key, prefix) == p.map_values(
                |x: Seq<char>| prefix + x,
            )
        }),
{
    let list = text::joined(p, seq![',']);
    let key = prefix + list;
    lemma_listed(p);
    assert(key.last() == list.last());
    text_laws::law_trimmed_texts_stay(key);
    assert(key.skip(prefix.len() as int) =~= list);
    let l = text::ascii_lower(key);
    assert forall|i: int| 0 <= i < prefix.len() implies l[i] == prefix[i] by {
        assert(text::ascii_lower(prefix)[i] == prefix[i]);
        assert(key[i] == prefix[i]);
    }
    assert(l.subrange(0, prefix.len() as int) =~= prefix);
}

proof fn lemma_prefixes()
    ensures
        "geosite:"@.len() == 8,
        "rule-set:"@.len() == 9,
        "geosite:"@[0] == 'g',
        "rule-set:"@[0] == 'r',
        text::ascii_lower("geosite:"@) == "geosite:"@,
        text::ascii_lower("rule-set:"@) == "rule-set:"@,
        !text::is_space('g') && !text::is_space('r'),
{
    reveal_strlit("geosite:");
    reveal_strlit("rule-set:");
    assert(text::ascii_lower("geosite:"@) =~= "geosite:"@);
    assert(text::ascii_lower("rule-set:"@) =~= "rule-set:"@);
}

/// A key may list several names with commas between them, and each is a key of its own,
/// in order. Where the list begins with a kind of list, each of them is of that kind.
pub proof fn law_keys_list_names(p: Seq<Seq<char>>)
    requires
        listable(p),
    ensures
        ({
            let list = text::joined(p, seq![',']);
            &&& !"geosite:"@.is_prefix_of(text::ascii_lower(list)) && !"rule-set:"@.is_prefix_of(
                text::ascii_lower(list),
            ) ==> nameserver::expanded_keys(list) == p
            &&& nameserver::expanded_keys("geosite:"@ + list) == p.map_values(
                |x: Seq<char>| "geosite:"@ + x,
            )
            &&& nameserver::expanded_keys("rule-set:"@ + list) == p.map_values(
                |x: Seq<char>| "rule-set:"@ + x,
            )
        }),
{
    let list = text::joined(p, seq![',']);
    lemma_listed(p);
    text_laws::law_trimmed_texts_stay(list);
    lemma_prefixes();
    lemma_prefixed("geosite:"@, p);
    lemma_prefixed("rule-set:"@, p);
    let l = text::ascii_lower("rule-set:"@ + list);
    assert(l[0] == 'r');
    assert(!"geosite:"@.is_prefix_of(l)) by {
        if "geosite:"@.is_prefix_of(l) {
            assert(l.subrange(0, 8)[0] == 'g');
        }
    }
}

/// Nameservers are read all or not at all: where each could be read they are kept in
/// their order, else the first that could not is told of by its text.
pub proof fn law_nameservers_are_read_all_or_none(
    servers: &Vec<String>,
    parsed: Vec<Read>,
    r: Result<Vec<NameServerEntry>, String>,
    i: int,
)
    requires
        servers@.len() == parsed@.len(),
        call_ensures(nameserver::parse_nameserver_entries, (servers, parsed), r),
        0 <= i < parsed@.len(),
    ensures
        r matches Ok(v) ==> v@.len() == parsed@.len() && parsed@[i] == Ok::<NameServerEntry, String>(
            v@[i],
        ),
        parsed@[i] is Err && (forall|j: int| 0 <= j < i ==> (#[trigger] parsed@[j]) is Ok) ==> (
        r matches Err(e) && e@ == "failed to parse nameserver '"@ + servers@[i]@ + "': "@
            + parsed@[i]->Err_0@),
{
    lemma_unread(parsed@, 0, i);
}

proof fn lemma_unread(parsed: Seq<Read>, from: int, i: int)
    requires
        0 <= from,
        0 <= i < parsed.len(),
    ensures
        nameserver::first_unread(parsed, from) is None && from <= i ==> parsed[i] is Ok,
        from <= i && parsed[i] is Err && (forall|j: int|
            from <= j < i ==> (#[trigger] parsed[j]) is Ok) ==> nameserver::first_unread(
            parsed,
            from,
        ) == Some(i),
    decreases parsed.len() - from,
{
    if from < parsed.len() {
        lemma_unread(parsed, from + 1, i);
    }
}

proof fn lemma_bootstraps(s: Seq<NameServerEntry>, i: int)
    ensures
        nameserver::bootstraps(s).contains(i) <==> 0 <= i < s.len() && nameserver::can_bootstrap(
            s[i],
        ),
        forall|k: int|
            0 <= k < nameserver::bootstraps(s).len() ==> 0 <= (#[trigger] nameserver::bootstraps(
                s,
            )[k]) < s.len(),
        forall|a: int, b: int|
            0 <= a < b < nameserver::bootstraps(s).len() ==> (#[trigger] nameserver::bootstraps(
                s,
            )[a]) < (#[trigger] nameserver::bootstraps(s)[b]),
    decreases s.len(),
{
    if s.len() > 0 {
        let r = s.drop_last();
        lemma_bootstraps(r, i);
        let x = nameserver::bootstraps(r);
        let y = nameserver::bootstraps(s);
        if x.contains(i) {
            let k = choose|k: int| 0 <= k < x.len() && x[k] == i;
            assert(y[k] == i);
            assert(r[i] == s[i]);
        }
        if y.contains(i) {
            let k = choose|k: int| 0 <= k < y.len() && y[k] == i;
            if k < x.len() {
                assert(x[k] == i);
            }
        }
        if i == s.len() - 1 && nameserver::can_bootstrap(s[i]) {
            assert(y[y.len() - 1] == i);
        }
        if 0 <= i < r.len() {
            assert(r[i] == s[i]);
        }
    }
}

/// Names of nameservers are looked up at those that need no lookup themselves: that have
/// an address, answer queries and are reached directly. They are taken from the list of
/// those that are meant for it, or from the main list where that is empty, in order.
pub proof fn law_lookups_need_no_lookup(
    default_ns: &Vec<NameServerEntry>,
    main: &Vec<NameServerEntry>,
    r: (bool, Vec<usize>),
    i: usize,
)
    requires
        call_ensures(nameserver::build_policy_bootstrap_clients, (default_ns, main), r),
    ensures
        ({
            let list = if default_ns@.len() > 0 {
                default_ns@
            } else {
                main@
            };
            &&& r.0 == (default_ns@.len() > 0)
            &&& r.1@.contains(i) <==> i < list.len() && list[i as int].proxy is None && (
            match list[i as int].url {
                NameServerUrl::Udp { addr, .. } => addr is Ip,
                NameServerUrl::Tcp { addr, .. } => addr is Ip,
                NameServerUrl::Tls { addr, .. } => addr is Ip,
                NameServerUrl::Https { addr, .. } => addr is Ip,
                NameServerUrl::RCode { .. } => false,
            })
            &&& forall|a: int, b: int| 0 <= a < b < r.1@.len() ==> r.1@[a] < r.1@[b]
        }),
{
    let list = if default_ns@.len() > 0 {
        default_ns@
    } else {
        main@
    };
    lemma_bootstraps(list, i as int);
    let found = nameserver::bootstraps(list);
    let got = nameserver::positions(r.1@);
    if r.1@.contains(i) {
        let k = choose|k: int| 0 <= k < r.1@.len() && r.1@[k] == i;
        assert(got[k] == i as int);
        assert(found.contains(i as int));
    }
    if found.contains(i as int) {
        let k = choose|k: int| 0 <= k < found.len() && found[k] == i as int;
        assert(got[k] == i as int);
        assert(r.1@[k] == i);
    }
    assert forall|a: int, b: int| 0 <= a < b < r.1@.len() implies r.1@[a] < r.1@[b] by {
        assert(got[a] == r.1@[a] as int && got[b] == r.1@[b] as int);
        assert(found[a] < found[b]);
    }
}

/// A name is looked up at one nameserver after another: the first address of the first
/// answer that has any is taken, and only where the last has none is there none.
pub proof fn law_lookups_go_on_until_there_is_an_answer(
    clients: usize,
    asked: usize,
    event: &LookupEvent,
    first: LookupStep,
    next: LookupStep,
)
    requires
        asked < clients,
        call_ensures(nameserver::resolve_policy_host, (clients,), first),
        call_ensures(nameserver::after_lookup, (clients, asked, event), next),
    ensures
        first == LookupStep::Ask(0),
        next matches LookupStep::Found(ip) ==> (*event matches LookupEvent::Answer(ips)
            && ips@.len() > 0 && ips@[0] == ip),
        (*event matches LookupEvent::Answer(ips) && ips@.len() > 0) ==> next is Found,
        next matches LookupStep::Ask(n) ==> n == asked + 1 && n < clients,
        next is NotFound ==> asked + 1 == clients,
{
}

} // verus!
