//! What holds of the lookup of keys, and of the nameservers that it asks.

use crate::config::ech;
use crate::config::ech::{EchEvent, EchServer, EchStep};
use crate::config::yaml;
use crate::config::yaml::Yaml;
use crate::net;
use crate::net::{IpAddr, SocketAddr};
use crate::number;
use crate::text;
use crate::text_laws;
use vstd::prelude::*;
use vstd::string::*;

verus! {

proof fn lemma_split(address: Seq<char>, zone: Seq<char>)
    requires
        !address.contains('%'),
    ensures
        ech::split_zone(address) == (address, None::<Seq<char>>),
        ech::split_zone(address + seq!['%'] + zone) == (address, Some(zone)),
{
    text_laws::law_the_first_place_is_found(address, '%');
    if let Some(k) = text::find(address, '%') {
        assert(address.contains(address[k]));
    }
    let t = address + seq!['%'] + zone;
    text_laws::law_the_first_place_is_found(t, '%');
    assert(t[address.len() as int] == '%');
    let i = text::find(t, '%')->0;
    if i < address.len() {
        assert(address[i] == '%');
    }
    if i > address.len() {
        assert(t.take(i)[address.len() as int] == '%');
    }
    assert(t.take(i) =~= address);
    assert(t.skip(i + 1) =~= zone);
}

/// A nameserver of the system is asked at port 53 of its address. An address of the new
/// kind may name the interface that it is reached through, by number or by a name whose
/// number is looked up; one of the old kind has none.
pub proof fn law_nameservers_of_the_system(address: Seq<char>, zone: Seq<char>, index: u32, n: u32)
    requires
        !address.contains('%'),
    ensures
        ({
            let plain = ech::nameserver_at(address, index);
            let token = address + seq!['%'] + zone;
            let zoned = ech::nameserver_at(token, index);
            &&& net::ip(address) is None ==> plain is None && zoned is None
            &&& net::ip(address) matches Some(ip) ==> plain == Some(
                SocketAddr { ip, port: 53, scope: 0 },
            )
            &&& net::ip(address) matches Some(IpAddr::V4(a)) ==> zoned == Some(
                SocketAddr { ip: IpAddr::V4(a), port: 53, scope: 0 },
            )
            &&& net::ip(address) matches Some(IpAddr::V6(a)) ==> (number::unsigned(
                zone,
                u32::MAX as nat,
            ) == Some(n as nat) ==> zoned == Some(
                SocketAddr { ip: IpAddr::V6(a), port: 53, scope: n },
            ) && ech::zone_name(token) is None) && (number::unsigned(zone, u32::MAX as nat) is None
                ==> zoned == Some(SocketAddr { ip: IpAddr::V6(a), port: 53, scope: index })
                && ech::zone_name(token) == Some(zone))
        }),
{
    lemma_split(address, zone);
}

/// A line of the system's file names a nameserver where it begins with that word: the
/// word behind it. Comments, blank lines and other lines name none. Those that are named
/// are kept in order.
pub proof fn law_lines_name_nameservers(lines: Seq<Seq<char>>, l: Seq<char>)
    ensures
        ech::line_tokens(Seq::empty()).len() == 0,
        ({
            let t = text::trimmed(l);
            &&& t.len() == 0 || t[0] == '#' || t[0] == ';' || !"nameserver"@.is_prefix_of(t)
                ==> ech::line_tokens(lines.push(l)) == ech::line_tokens(lines)
            &&& "nameserver"@.is_prefix_of(t) && text::word_list(t.skip(10)).len() > 0
                ==> ech::line_tokens(lines.push(l)) == ech::line_tokens(lines).push(
                text::word_list(t.skip(10))[0],
            )
        }),
{
    reveal_strlit("nameserver");
    assert("nameserver"@.len() == 10);
    assert("nameserver"@[0] == 'n');
    assert(lines.push(l).drop_last() =~= lines);
    let t = text::trimmed(l);
    if "nameserver"@.is_prefix_of(t) {
        assert(t.subrange(0, 10)[0] == t[0]);
        assert(t[0] == 'n');
    }
}

/// The nameservers that are asked are those that can be read, in order, and two public
/// ones where none can.
pub proof fn law_some_nameserver_is_asked(tokens: Seq<Seq<char>>, indices: Seq<u32>, i: int)
    requires
        tokens.len() == indices.len(),
        0 <= i < tokens.len(),
    ensures
        ech::nameserver_at(tokens[i], indices[i]) matches Some(a) ==> ech::servers_of(
            tokens,
            indices,
        ).contains(a),
        (forall|j: int|
            0 <= j < tokens.len() ==> ech::nameserver_at(#[trigger] tokens[j], indices[j]) is None)
            ==> ech::servers_of(tokens, indices) == seq![
            SocketAddr { ip: IpAddr::V4(0x0101_0101), port: 53, scope: 0 },
            SocketAddr { ip: IpAddr::V4(0x0808_0808), port: 53, scope: 0 },
        ],
        (forall|j: int|
            0 <= j < tokens.len() ==> ech::nameserver_at(#[trigger] tokens[j], indices[j]) is Some)
            ==> ech::servers_of(tokens, indices) == Seq::new(
            tokens.len(),
            |j: int| ech::nameserver_at(tokens[j], indices[j])->0,
        ),
{
    lemma_read(tokens, indices, i);
    let r = ech::read_tokens(tokens, indices);
    if let Some(a) = ech::nameserver_at(tokens[i], indices[i]) {
        let k = choose|k: int| 0 <= k < r.len() && r[k] == a;
    }
}

proof fn lemma_read(tokens: Seq<Seq<char>>, indices: Seq<u32>, i: int)
    requires
        tokens.len() <= indices.len(),
        0 <= i < tokens.len(),
    ensures
        ech::nameserver_at(tokens[i], indices[i]) matches Some(a) ==> ech::read_tokens(
            tokens,
            indices,
        ).contains(a),
        (forall|j: int|
            0 <= j < tokens.len() ==> ech::nameserver_at(#[trigger] tokens[j], indices[j]) is None)
            ==> ech::read_tokens(tokens, indices).len() == 0,
        (forall|j: int|
            0 <= j < tokens.len() ==> ech::nameserver_at(#[trigger] tokens[j], indices[j]) is Some)
            ==> ech::read_tokens(tokens, indices) == Seq::new(
            tokens.len(),
            |j: int| ech::nameserver_at(tokens[j], indices[j])->0,
        ),
    decreases tokens.len(),
{
    let t = tokens.drop_last();
    let r = ech::read_tokens(t, indices);
    let all = ech::read_tokens(tokens, indices);
    let want = Seq::new(tokens.len(), |j: int| ech::nameserver_at(tokens[j], indices[j])->0);
    if t.len() > 0 {
        lemma_read(t, indices, if i < t.len() {
            i
        } else {
            0
        });
    } else {
        assert(r.len() == 0);
    }
    if let Some(a) = ech::nameserver_at(tokens[i], indices[i]) {
        if i < t.len() {
            assert(t[i] == tokens[i]);
            let k = choose|k: int| 0 <= k < r.len() && r[k] == a;
            assert(all[k] == a);
        } else {
            assert(all[all.len() - 1] == a);
        }
    }
    if forall|j: int|
        0 <= j < tokens.len() ==> ech::nameserver_at(#[trigger] tokens[j], indices[j]) is None {
        assert forall|j: int| 0 <= j < t.len() implies ech::nameserver_at(
            #[trigger] t[j],
            indices[j],
        ) is None by {
            assert(t[j] == tokens[j]);
        }
        assert(ech::nameserver_at(tokens[tokens.len() - 1], indices[tokens.len() - 1]) is None);
    }
    if forall|j: int|
        0 <= j < tokens.len() ==> ech::nameserver_at(#[trigger] tokens[j], indices[j]) is Some {
        assert forall|j: int| 0 <= j < t.len() implies ech::nameserver_at(
            #[trigger] t[j],
            indices[j],
        ) is Some by {
            assert(t[j] == tokens[j]);
        }
        assert(ech::nameserver_at(tokens[tokens.len() - 1], indices[tokens.len() - 1]) is Some);
        if t.len() > 0 {
            let some = Seq::new(t.len(), |j: int| ech::nameserver_at(t[j], indices[j])->0);
            assert(r == some);
            assert forall|j: int| 0 <= j < t.len() implies r[j] == want[j] by {
                assert(t[j] == tokens[j]);
                assert(r[j] == some[j]);
            }
        }
        assert(all =~= want);
    }
}

/// Keys are asked for at the nameservers of the system first, in order, and then over
/// HTTPS at two public ones.
pub proof fn law_who_is_asked_for_keys(ns: Seq<SocketAddr>, i: int)
    ensures
        ech::ech_servers(ns).len() == ns.len() + 2,
        0 <= i < ns.len() ==> ech::ech_servers(ns)[i] == EchServer::Udp(ns[i]),
        ech::ech_servers(ns)[ns.len() as int] == EchServer::Doh(0x0101_0101),
        ech::ech_servers(ns)[ns.len() as int + 1] == EchServer::Doh(0x0100_0001),
{
}

proof fn lemma_first_keys(p: Seq<Option<Seq<u8>>>, from: int)
    requires
        0 <= from,
    ensures
        (match ech::first_keys(p, from) {
            Some(k) => k.len() > 0 && exists|i: int|
                from <= i < p.len() && #[trigger] p[i] == Some(k) && forall|j: int|
                    from <= j < i ==> (#[trigger] p[j] matches Some(x) ==> x.len() == 0),
            None => forall|j: int|
                from <= j < p.len() ==> (#[trigger] p[j] matches Some(x) ==> x.len() == 0),
        }),
    decreases p.len() - from,
{
    if from < p.len() {
        if p[from] matches Some(k) && k.len() > 0 {
            assert(p[from] == ech::first_keys(p, from));
        } else {
            lemma_first_keys(p, from + 1);
            if let Some(k) = ech::first_keys(p, from) {
                let i = choose|i: int|
                    from + 1 <= i < p.len() && #[trigger] p[i] == Some(k) && forall|j: int|
                        from + 1 <= j < i ==> (#[trigger] p[j] matches Some(x) ==> x.len() == 0);
                assert(p[i] == Some(k));
            }
        }
    }
}

/// Whether an answer gives keys.
pub open spec fn gives(a: Option<Seq<Option<Seq<u8>>>>) -> bool {
    a matches Some(p) && exists|j: int| 0 <= j < p.len() && (#[trigger] p[j] matches Some(k) && k.len()
        > 0)
}

proof fn lemma_answers(a: Seq<Option<Seq<Option<Seq<u8>>>>>, from: int, i: int)
    requires
        0 <= from <= i <= a.len(),
        forall|j: int| from <= j < i ==> !gives(#[trigger] a[j]),
    ensures
        i == a.len() ==> ech::answers_keys(a, from) is None,
        i < a.len() && gives(a[i]) ==> ech::answers_keys(a, from) == ech::first_keys(a[i]->0, 0)
            && ech::answers_keys(a, from) is Some,
    decreases i - from,
{
    if from < i {
        assert(!gives(a[from]));
        if let Some(p) = a[from] {
            lemma_first_keys(p, 0);
        }
        lemma_answers(a, from + 1, i);
    } else if i < a.len() && gives(a[i]) {
        lemma_first_keys(a[i]->0, 0);
    }
}

/// The keys are the first that any answer gives and that are not empty, in the order of
/// the answers; there are none exactly where no answer gives any.
pub proof fn law_the_first_keys_are_taken(a: Seq<Option<Seq<Option<Seq<u8>>>>>, i: int)
    requires
        0 <= i <= a.len(),
        forall|j: int| 0 <= j < i ==> !gives(#[trigger] a[j]),
    ensures
        i == a.len() ==> ech::answers_keys(a, 0) is None,
        i < a.len() && gives(a[i]) ==> (ech::answers_keys(a, 0) matches Some(k) && k.len() > 0 && exists|j:
            int|
            0 <= j < a[i]->0.len() && (#[trigger] a[i]->0[j]) == Some(k) && forall|l: int|
                0 <= l < j ==> (#[trigger] a[i]->0[l] matches Some(x) ==> x.len() == 0)),
{
    lemma_answers(a, 0, i);
    if i < a.len() && gives(a[i]) {
        lemma_first_keys(a[i]->0, 0);
    }
}

/// A lookup ends with the first message that can be read, with its keys or with the word
/// that it gives none. A nameserver that fails, or whose message cannot be read, passes
/// the question to the next; where the last fails, the lookup fails with its reason.
pub proof fn law_lookups_end_with_the_first_message(
    s: EchStep,
    name: Seq<char>,
    servers: nat,
    asked: nat,
    event: EchEvent,
)
    requires
        asked < servers,
        ech::ech_step_ok(s, name, servers, asked, event),
    ensures
        s matches EchStep::Ask(i) ==> i == asked + 1 && i < servers,
        s is Ask ==> (event matches EchEvent::Reply(m) ==> ech::https_answers(m@) is None),
        (event matches EchEvent::Reply(m) && ech::https_answers(m@) is Some) ==> s is Done,
        s matches EchStep::Done(Ok(k)) ==> (event matches EchEvent::Reply(m) && (
        ech::https_answers(m@) matches Some(a) && ech::answers_keys(a, 0) == Some(k@))),
        (event matches EchEvent::Reply(m) && (ech::https_answers(m@) matches Some(a)
            && ech::answers_keys(a, 0) is Some)) ==> (s matches EchStep::Done(Ok(_))),
        event is Failed && asked + 1 < servers ==> s is Ask,
        event is Failed && asked + 1 == servers ==> (s matches EchStep::Done(Err(e))
            && event->Failed_0@.is_suffix_of(e@)),
{
    if event is Failed && asked + 1 == servers {
        let last = event->Failed_0@;
        let e = ech::all_failed(name, last);
        assert(e.subrange(e.len() - last.len(), e.len() as int) =~= last);
    }
}

/// Keys are looked up for a proxy exactly where its options ask for them and give none:
/// under the name that is given, or else under that of its server.
pub proof fn law_when_keys_are_looked_up(o: Seq<(String, Yaml)>)
    ensures
        ({
            let y = yaml::option(o, "ech-opts"@);
            let asked = (y matches Some(m) && m is Mapping) && yaml::opt_bool(
                yaml::opt_entry(y, "enable"@),
            ) == Some(true) && yaml::opt_str(yaml::opt_entry(y, "config"@)) is None;
            let named = yaml::opt_str(yaml::opt_entry(y, "query-server-name"@));
            &&& !asked ==> ech::ech_query(o) is None
            &&& asked && named is Some ==> ech::ech_query(o) == named
            &&& asked && named is None ==> ech::ech_query(o) == yaml::str_option(o, "server"@)
        }),
{
}

} // verus!
