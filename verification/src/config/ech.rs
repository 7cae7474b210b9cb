//! The keys with which the greeting of a TLS connection is encrypted, where they
//! come from the DNS.

use crate::codec;
use crate::config::yaml;
use crate::config::yaml::{Options, Yaml};
use crate::net;
use crate::net::{IpAddr, SocketAddr};
use crate::number;
use crate::text;
use hickory_proto::op::Message;
use hickory_proto::rr::rdata::svcb::SvcParamValue;
use hickory_proto::rr::RData;
use vstd::prelude::*;
use vstd::string::*;

verus! {

/// The text before the first percent sign, and the text after it.
pub open spec fn split_zone(token: Seq<char>) -> (Seq<char>, Option<Seq<char>>) {
    match text::find(token, '%') {
        Some(i) => (token.take(i), Some(token.skip(i + 1))),
        None => (token, None),
    }
}

/// The interface that has to be looked up to read a nameserver: the zone of an
/// IPv6 address, where it is not a number.
pub open spec fn zone_name(token: Seq<char>) -> Option<Seq<char>> {
    match (net::ip(split_zone(token).0), split_zone(token).1) {
        (Some(IpAddr::V6(_)), Some(z)) => if number::unsigned(z, u32::MAX as nat) is None {
            Some(z)
        } else {
            None
        },
        _ => None,
    }
}

/// The nameserver that a token names, given the index of the interface that it
/// names.
pub open spec fn nameserver_at(token: Seq<char>, index: u32) -> Option<SocketAddr> {
    let (address, zone) = split_zone(token);
    match net::ip(address) {
        Some(IpAddr::V4(a)) => Some(SocketAddr { ip: IpAddr::V4(a), port: 53, scope: 0 }),
        Some(IpAddr::V6(a)) => {
            let scope = match zone {
                Some(z) => match number::unsigned(z, u32::MAX as nat) {
                    Some(n) => n as u32,
                    None => index,
                },
                None => 0u32,
            };
            Some(SocketAddr { ip: IpAddr::V6(a), port: 53, scope })
        },
        None => None,
    }
}

fn cut_zone(token: &str) -> (r: (String, Option<String>))
    ensures
        r.0@ == split_zone(token@).0,
        text::opt_view(r.1) == split_zone(token@).1,
{
    let c = text::chars_of(token);
    match text::find_char(&c, '%') {
        Some(i) => {
            let a = text::string_range(&c, 0, i);
            let z = text::string_range(&c, i + 1, c.len());
            assert(a@ =~= token@.take(i as int));
            assert(z@ =~= token@.skip(i + 1));
            (a, Some(z))
        },
        None => (token.to_owned(), None),
    }
}

/// The interface that has to be looked up to read a nameserver.
pub fn zone_to_look_up(token: &str) -> (r: Option<String>)
    ensures
        text::opt_view(r) == zone_name(token@),
{
    let (address, zone) = cut_zone(token);
    match (net::parse_ip(address.as_str()), zone) {
        (Some(IpAddr::V6(_)), Some(z)) => match number::parse_u32(z.as_str()) {
            Some(_) => None,
            None => Some(z),
        },
        _ => None,
    }
}

/// Reads a nameserver as the system writes it: an address, and for IPv6 the zone
/// that it is in. The index of an interface that is named must be looked up
/// before; it is 0 where there is no such interface.
pub fn parse_nameserver_token(token: &str, index: u32) -> (r: Option<SocketAddr>)
    ensures
        r == nameserver_at(token@, index),
{
    let (address, zone) = cut_zone(token);
    match net::parse_ip(address.as_str()) {
        Some(IpAddr::V4(a)) => Some(SocketAddr { ip: IpAddr::V4(a), port: 53, scope: 0 }),
        Some(IpAddr::V6(a)) => {
            let scope: u32 = match zone {
                Some(z) => match number::parse_u32(z.as_str()) {
                    Some(n) => n,
                    None => index,
                },
                None => 0,
            };
            Some(SocketAddr { ip: IpAddr::V6(a), port: 53, scope })
        },
        None => None,
    }
}

/// The token of a nameserver line.
pub open spec fn line_token(line: Seq<char>) -> Option<Seq<char>> {
    let t = text::trimmed(line);
    if t.len() == 0 || t[0] == '#' || t[0] == ';' || !"nameserver"@.is_prefix_of(t) {
        None
    } else {
        let w = text::word_list(t.skip("nameserver"@.len() as int));
        Some(
            if w.len() > 0 {
                w[0]
            } else {
                Seq::empty()
            },
        )
    }
}

/// The tokens of the nameserver lines.
pub open spec fn line_tokens(lines: Seq<Seq<char>>) -> Seq<Seq<char>>
    decreases lines.len(),
{
    if lines.len() == 0 {
        Seq::empty()
    } else {
        let r = line_tokens(lines.drop_last());
        match line_token(lines.last()) {
            Some(t) => r.push(t),
            None => r,
        }
    }
}

fn token_of(line: &str) -> (r: Option<String>)
    ensures
        text::opt_view(r) == line_token(line@),
{
    let t = text::trim(line);
    let c = text::chars_of(t.as_str());
    if c.len() == 0 || c[0] == '#' || c[0] == ';' || !text::starts_with(t.as_str(), "nameserver") {
        return None;
    }
    let n: usize = "nameserver".unicode_len();
    let rest = text::skip(t.as_str(), n);
    let w = text::words(rest.as_str());
    if w.len() > 0 {
        assert(text::views(w@)[0] == w@[0]@);
        Some(w[0].clone())
    } else {
        let s = String::new();
        assert(s@ =~= Seq::empty());
        Some(s)
    }
}

/// The nameservers that a resolver file of the system names.
pub fn nameserver_tokens(contents: &str) -> (out: Vec<String>)
    ensures
        text::views(out@) == line_tokens(text::line_list(contents@)),
{
    let lines = text::lines(contents);
    let ghost all = text::views(lines@);
    let mut out = text::no_strings();
    let mut i: usize = 0;
    assert(all.take(0) =~= Seq::empty());
    while i < lines.len()
        invariant
            i <= lines@.len(),
            all == text::views(lines@),
            text::views(out@) == line_tokens(all.take(i as int)),
        decreases lines@.len() - i,
    {
        assert(all.take(i + 1).drop_last() =~= all.take(i as int));
        assert(all.take(i + 1).last() == lines@[i as int]@);
        if let Some(t) = token_of(lines[i].as_str()) {
            text::push_string(&mut out, t);
        }
        i += 1;
    }
    assert(all.take(i as int) =~= all);
    out
}

/// The nameservers that tokens name.
pub open spec fn read_tokens(tokens: Seq<Seq<char>>, indices: Seq<u32>) -> Seq<SocketAddr>
    decreases tokens.len(),
{
    if tokens.len() == 0 {
        Seq::empty()
    } else {
        let r = read_tokens(tokens.drop_last(), indices);
        match nameserver_at(tokens.last(), indices[tokens.len() - 1]) {
            Some(a) => r.push(a),
            None => r,
        }
    }
}

/// An IPv4 nameserver on its usual port.
pub open spec fn plain_server(a: u32) -> SocketAddr {
    SocketAddr { ip: IpAddr::V4(a), port: 53, scope: 0 }
}

/// The nameservers of the system; two public ones where it has none.
pub open spec fn servers_of(tokens: Seq<Seq<char>>, indices: Seq<u32>) -> Seq<SocketAddr> {
    let r = read_tokens(tokens, indices);
    if r.len() > 0 {
        r
    } else {
        seq![plain_server(0x01010101), plain_server(0x08080808)]
    }
}

/// The nameservers of the system, given the interfaces that their tokens name. Two
/// public ones stand in where the system has none.
pub fn system_nameservers(tokens: &Vec<String>, indices: &Vec<u32>) -> (out: Vec<SocketAddr>)
    requires
        tokens@.len() == indices@.len(),
    ensures
        out@ == servers_of(text::views(tokens@), indices@),
        out@.len() > 0,
{
    let ghost all = text::views(tokens@);
    let mut out: Vec<SocketAddr> = Vec::new();
    let mut i: usize = 0;
    assert(all.take(0) =~= Seq::empty());
    while i < tokens.len()
        invariant
            i <= tokens@.len(),
            tokens@.len() == indices@.len(),
            all == text::views(tokens@),
            out@ == read_tokens(all.take(i as int), indices@),
        decreases tokens@.len() - i,
    {
        assert(all.take(i + 1).drop_last() =~= all.take(i as int));
        assert(all.take(i + 1).last() == tokens@[i as int]@);
        if let Some(a) = parse_nameserver_token(tokens[i].as_str(), indices[i]) {
            out.push(a);
        }
        i += 1;
    }
    assert(all.take(i as int) =~= all);
    if out.len() == 0 {
        out.push(SocketAddr { ip: IpAddr::V4(0x01010101), port: 53, scope: 0 });
        out.push(SocketAddr { ip: IpAddr::V4(0x08080808), port: 53, scope: 0 });
        assert(out@ =~= seq![plain_server(0x01010101), plain_server(0x08080808)]);
    }
    out
}

/// A server that is asked for keys.
#[derive(Clone, Copy, Debug, PartialEq, Eq, Structural)]
pub enum EchServer {
    /// A nameserver.
    Udp(SocketAddr),
    /// The public server for queries over HTTPS, at one of its addresses.
    Doh(u32),
}

/// The name of the public server for queries over HTTPS.
pub const DOH_FALLBACK_HOST: &'static str = "cloudflare-dns.com";

/// The path of queries over HTTPS.
pub const DOH_FALLBACK_PATH: &'static str = "/dns-query";

/// The servers that are asked for keys, in turn: the nameservers, then the public
/// server at its two addresses. Many nameservers do not pass such records on.
pub open spec fn ech_servers(ns: Seq<SocketAddr>) -> Seq<EchServer> {
    ns.map_values(|a: SocketAddr| EchServer::Udp(a)) + seq![
        EchServer::Doh(0x01010101),
        EchServer::Doh(0x01000001),
    ]
}

/// The servers that are asked for keys, in turn.
pub fn servers_to_ask(ns: &Vec<SocketAddr>) -> (out: Vec<EchServer>)
    ensures
        out@ == ech_servers(ns@),
{
    let ghost want = ns@.map_values(|a: SocketAddr| EchServer::Udp(a));
    let mut out: Vec<EchServer> = Vec::new();
    let mut i: usize = 0;
    while i < ns.len()
        invariant
            i <= ns@.len(),
            want == ns@.map_values(|a: SocketAddr| EchServer::Udp(a)),
            out@ == want.take(i as int),
        decreases ns@.len() - i,
    {
        out.push(EchServer::Udp(ns[i]));
        assert(want.take(i + 1) =~= want.take(i as int).push(EchServer::Udp(ns@[i as int])));
        i += 1;
    }
    assert(want.take(i as int) =~= want);
    out.push(EchServer::Doh(0x01010101));
    out.push(EchServer::Doh(0x01000001));
    assert(out@ =~= ech_servers(ns@));
    out
}

/// The answers of a DNS message: for a record on an HTTPS service its parameters,
/// and for a parameter with keys the keys. Nothing where the bytes are no message.
pub uninterp spec fn https_answers(message: Seq<u8>) -> Option<Seq<Option<Seq<Option<Seq<u8>>>>>>;

/// An answer: the parameters of an HTTPS service, of which the keys are read, or
/// any other record.
pub type Answer = Option<Vec<Option<Vec<u8>>>>;

/// The keys of a parameter.
pub open spec fn keys_view(k: Option<Vec<u8>>) -> Option<Seq<u8>> {
    match k {
        Some(v) => Some(v@),
        None => None,
    }
}

/// An answer as mathematical values.
pub open spec fn answer_view(a: Answer) -> Option<Seq<Option<Seq<u8>>>> {
    match a {
        Some(v) => Some(v@.map_values(|k: Option<Vec<u8>>| keys_view(k))),
        None => None,
    }
}

/// Answers as mathematical values.
pub open spec fn answer_views(v: Seq<Answer>) -> Seq<Option<Seq<Option<Seq<u8>>>>> {
    v.map_values(|a: Answer| answer_view(a))
}

/// The answers that were read, as mathematical values.
pub open spec fn read_view(r: Option<Vec<Answer>>) -> Option<
    Seq<Option<Seq<Option<Seq<u8>>>>>,
> {
    match r {
        Some(v) => Some(answer_views(v@)),
        None => None,
    }
}

/// `hickory_proto::op::Message::from_vec` reads a DNS message. Each of its answers
/// is given in turn: the parameters of a record on an HTTPS service, with the bytes
/// of those that hold keys, and nothing for any other record.
#[verifier::external_body]
pub(crate) fn read_answers(message: &[u8]) -> (r: Option<Vec<Answer>>)
    ensures
        read_view(r) == https_answers(message@),
{
    let message = Message::from_vec(message).ok()?;
    let keys = |v: &SvcParamValue| match v {
        SvcParamValue::EchConfigList(list) => Some(list.0.clone()),
        _ => None,
    };
    let answer = |d: &RData| match d {
        RData::HTTPS(h) => Some(h.0.svc_params().iter().map(|p| keys(&p.1)).collect()),
        _ => None,
    };
    Some(message.answers().iter().map(|r| answer(r.data())).collect())
}

/// The first keys, from a position on, that are not empty.
pub open spec fn first_keys(p: Seq<Option<Seq<u8>>>, from: int) -> Option<Seq<u8>>
    decreases p.len() - from,
{
    if from < 0 || from >= p.len() {
        None
    } else if p[from] matches Some(k) && k.len() > 0 {
        p[from]
    } else {
        first_keys(p, from + 1)
    }
}

/// The first keys of answers, from a position on, that are not empty.
pub open spec fn answers_keys(a: Seq<Option<Seq<Option<Seq<u8>>>>>, from: int) -> Option<Seq<u8>>
    decreases a.len() - from,
{
    if from < 0 || from >= a.len() {
        None
    } else {
        match a[from] {
            Some(p) => match first_keys(p, 0) {
                Some(k) => Some(k),
                None => answers_keys(a, from + 1),
            },
            None => answers_keys(a, from + 1),
        }
    }
}

fn keys_of(p: &Vec<Option<Vec<u8>>>) -> (r: Option<Vec<u8>>)
    ensures
        keys_view(r) == first_keys(p@.map_values(|k: Option<Vec<u8>>| keys_view(k)), 0),
{
    let ghost all = p@.map_values(|k: Option<Vec<u8>>| keys_view(k));
    let mut i: usize = 0;
    while i < p.len()
        invariant
            i <= p@.len(),
            all == p@.map_values(|k: Option<Vec<u8>>| keys_view(k)),
            first_keys(all, 0) == first_keys(all, i as int),
        decreases p@.len() - i,
    {
        assert(all[i as int] == keys_view(p@[i as int]));
        if let Some(k) = &p[i] {
            let n: usize = k.len();
            if n > 0 {
                let out = text::slice_of(k, 0, n);
                assert(out@ =~= k@);
                return Some(out);
            }
        }
        i += 1;
    }
    None
}

/// How it is told that there are no keys.
pub open spec fn no_keys(name: Seq<char>) -> Seq<char> {
    "ech-dns: no ECH config (SvcParam key 5) in HTTPS record for "@ + name
}

/// The keys in the answers to a query for a name.
pub fn ech_in_answers(name: &str, answers: &Vec<Answer>) -> (r: Result<Vec<u8>, String>)
    ensures
        (match r {
            Ok(k) => answers_keys(answer_views(answers@), 0) == Some(k@),
            Err(e) => answers_keys(answer_views(answers@), 0) is None && e@ == no_keys(name@),
        }),
{
    let ghost all = answer_views(answers@);
    let mut i: usize = 0;
    while i < answers.len()
        invariant
            i <= answers@.len(),
            all == answer_views(answers@),
            answers_keys(all, 0) == answers_keys(all, i as int),
        decreases answers@.len() - i,
    {
        assert(all[i as int] == answer_view(answers@[i as int]));
        if let Some(p) = &answers[i] {
            if let Some(k) = keys_of(p) {
                return Ok(k);
            }
        }
        i += 1;
    }
    Err("ech-dns: no ECH config (SvcParam key 5) in HTTPS record for ".to_owned().concat(name))
}

/// What came of asking a server.
#[derive(Debug)]
pub enum EchEvent {
    /// The message that came back.
    Reply(Vec<u8>),
    /// The server could not be asked, or did not answer.
    Failed(String),
}

/// What to do next to get keys.
#[derive(Debug)]
pub enum EchStep {
    /// Ask the server at this position, for at most five seconds.
    Ask(usize),
    /// The keys, or how it is told that there are none.
    Done(Result<Vec<u8>, String>),
}

/// How it is told that no server answered.
pub open spec fn all_failed(name: Seq<char>, last: Seq<char>) -> Seq<char> {
    "ech-dns: HTTPS lookup for "@ + name
        + " failed via all nameservers (system + DoH cloudflare-dns.com): "@ + last
}

/// Whether a step is the right one after a server was asked: the first answer
/// counts, and a server that fails is followed by the next.
pub open spec fn ech_step_ok(
    s: EchStep,
    name: Seq<char>,
    servers: nat,
    asked: nat,
    event: EchEvent,
) -> bool {
    match event {
        EchEvent::Reply(m) => match https_answers(m@) {
            Some(a) => match (s, answers_keys(a, 0)) {
                (EchStep::Done(Ok(k)), Some(w)) => k@ == w,
                (EchStep::Done(Err(e)), None) => e@ == no_keys(name),
                _ => false,
            },
            None => next_ok(s, name, servers, asked, "malformed DNS message"@),
        },
        EchEvent::Failed(e) => next_ok(s, name, servers, asked, e@),
    }
}

/// Whether a step is the right one after a server failed.
pub open spec fn next_ok(
    s: EchStep,
    name: Seq<char>,
    servers: nat,
    asked: nat,
    reason: Seq<char>,
) -> bool {
    if asked + 1 < servers {
        s matches EchStep::Ask(i) && i == asked + 1
    } else {
        s matches EchStep::Done(Err(e)) && e@ == all_failed(name, reason)
    }
}

fn ask_next(name: &str, servers: usize, asked: usize, reason: &str) -> (s: EchStep)
    requires
        asked < servers,
    ensures
        next_ok(s, name@, servers as nat, asked as nat, reason@),
{
    if asked + 1 < servers {
        EchStep::Ask(asked + 1)
    } else {
        EchStep::Done(
            Err(
                "ech-dns: HTTPS lookup for ".to_owned().concat(name).concat(
                    " failed via all nameservers (system + DoH cloudflare-dns.com): ",
                ).concat(reason),
            ),
        )
    }
}

/// The step after a server was asked for the keys of a name.
pub fn fetch_ech_from_dns(name: &str, servers: usize, asked: usize, event: &EchEvent) -> (s:
    EchStep)
    requires
        asked < servers,
    ensures
        ech_step_ok(s, name@, servers as nat, asked as nat, *event),
{
    match event {
        EchEvent::Reply(m) => match read_answers(m.as_slice()) {
            Some(a) => EchStep::Done(ech_in_answers(name, &a)),
            None => ask_next(name, servers, asked, "malformed DNS message"),
        },
        EchEvent::Failed(e) => ask_next(name, servers, asked, e.as_str()),
    }
}

/// What the keys of a proxy are asked for under: nothing where no keys are wanted
/// or where they are given.
pub open spec fn ech_query(o: Seq<(String, Yaml)>) -> Option<Seq<char>> {
    let opts = yaml::option(o, "ech-opts"@);
    if opts matches Some(y) && y is Mapping && yaml::opt_bool(yaml::entry(y, "enable"@)) == Some(
        true,
    ) && yaml::opt_str(yaml::entry(y, "config"@)) is None {
        match yaml::opt_str(yaml::entry(opts->0, "query-server-name"@)) {
            Some(n) => Some(n),
            None => yaml::str_option(o, "server"@),
        }
    } else {
        None
    }
}

/// What the keys of a proxy are asked for under.
pub fn query_of(o: &Options) -> (r: Option<String>)
    ensures
        text::opt_view(r) == ech_query(o@),
{
    let y = match yaml::get_option(o, "ech-opts") {
        Some(y) => y,
        None => return None,
    };
    if let Yaml::Mapping(_) = y {
        let enabled = match yaml::get_entry(y, "enable") {
            Some(Yaml::Bool(b)) => *b,
            _ => false,
        };
        if !enabled {
            return None;
        }
        if yaml::get_str(yaml::get_entry(y, "config")).is_some() {
            return None;
        }
        match yaml::get_str(yaml::get_entry(y, "query-server-name")) {
            Some(n) => Some(n.to_owned()),
            None => match yaml::get_str_option(o, "server") {
                Some(s) => Some(s.to_owned()),
                None => None,
            },
        }
    } else {
        None
    }
}

/// Where an option stands.
pub open spec fn option_at(o: Seq<(String, Yaml)>, k: Seq<char>, from: int) -> Option<int>
    decreases o.len() - from,
{
    if from < 0 || from >= o.len() {
        None
    } else if o[from].0@ == k {
        Some(from)
    } else {
        option_at(o, k, from + 1)
    }
}

/// Where an entry stands.
pub open spec fn entry_at(m: Seq<(Yaml, Yaml)>, k: Seq<char>, from: int) -> Option<int>
    decreases m.len() - from,
{
    if from < 0 || from >= m.len() {
        None
    } else if yaml::is_text(m[from].0, k) {
        Some(from)
    } else {
        entry_at(m, k, from + 1)
    }
}

/// Whether a mapping is another with a text put under `config`, and nothing else
/// changed.
pub open spec fn config_put(m: Seq<(Yaml, Yaml)>, n: Seq<(Yaml, Yaml)>, t: Seq<char>) -> bool {
    match entry_at(m, "config"@, 0) {
        Some(k) => {
            &&& n.len() == m.len()
            &&& n[k].0 == m[k].0
            &&& yaml::str_of(n[k].1) == Some(t)
            &&& forall|j: int| 0 <= j < m.len() && j != k ==> #[trigger] n[j] == m[j]
        },
        None => {
            &&& n.len() == m.len() + 1
            &&& n.take(m.len() as int) == m
            &&& yaml::is_text(n.last().0, "config"@)
            &&& yaml::str_of(n.last().1) == Some(t)
        },
    }
}

/// Whether options are others with a text put under `config` of `ech-opts`, and
/// nothing else changed.
pub open spec fn keys_put(o: Seq<(String, Yaml)>, p: Seq<(String, Yaml)>, t: Seq<char>) -> bool {
    match option_at(o, "ech-opts"@, 0) {
        Some(i) => {
            &&& p.len() == o.len()
            &&& p[i].0 == o[i].0
            &&& o[i].1 matches Yaml::Mapping(m) && p[i].1 matches Yaml::Mapping(n) && config_put(
                m@,
                n@,
                t,
            )
            &&& forall|j: int| 0 <= j < o.len() && j != i ==> #[trigger] p[j] == o[j]
        },
        None => false,
    }
}

proof fn lemma_option_at(o: Seq<(String, Yaml)>, k: Seq<char>, from: int)
    requires
        0 <= from,
    ensures
        (match option_at(o, k, from) {
            Some(i) => from <= i < o.len() && o[i].0@ == k && yaml::option_from(o, k, from) == Some(
                o[i].1,
            ) && forall|j: int| from <= j < i ==> (#[trigger] o[j]).0@ != k,
            None => yaml::option_from(o, k, from) is None && forall|j: int|
                from <= j < o.len() ==> (#[trigger] o[j]).0@ != k,
        }),
    decreases o.len() - from,
{
    if from < o.len() && o[from].0@ != k {
        lemma_option_at(o, k, from + 1);
    }
}

proof fn lemma_entry_at(m: Seq<(Yaml, Yaml)>, k: Seq<char>, from: int)
    requires
        0 <= from,
    ensures
        (match entry_at(m, k, from) {
            Some(i) => from <= i < m.len() && yaml::is_text(m[i].0, k) && yaml::entry_from(
                m,
                k,
                from,
            ) == Some(m[i].1) && forall|j: int| from <= j < i ==> !yaml::is_text(
                (#[trigger] m[j]).0,
                k,
            ),
            None => yaml::entry_from(m, k, from) is None && forall|j: int|
                from <= j < m.len() ==> !yaml::is_text((#[trigger] m[j]).0, k),
        }),
    decreases m.len() - from,
{
    if from < m.len() && !yaml::is_text(m[from].0, k) {
        lemma_entry_at(m, k, from + 1);
    }
}

/// The same keys in the same places.
proof fn lemma_first_option(o: Seq<(String, Yaml)>, k: Seq<char>, i: int, from: int)
    requires
        0 <= from <= i < o.len(),
        o[i].0@ == k,
        forall|j: int| from <= j < i ==> (#[trigger] o[j]).0@ != k,
    ensures
        option_at(o, k, from) == Some(i),
    decreases i - from,
{
    if from < i {
        lemma_first_option(o, k, i, from + 1);
    }
}

proof fn lemma_first_entry(m: Seq<(Yaml, Yaml)>, k: Seq<char>, i: int, from: int)
    requires
        0 <= from <= i < m.len(),
        yaml::is_text(m[i].0, k),
        forall|j: int| from <= j < i ==> !yaml::is_text((#[trigger] m[j]).0, k),
    ensures
        entry_at(m, k, from) == Some(i),
    decreases i - from,
{
    if from < i {
        lemma_first_entry(m, k, i, from + 1);
    }
}

/// Keys that are put into the options of a proxy are read back from them, and are
/// not asked for again.
pub proof fn law_keys_are_read_back(
    o: Seq<(String, Yaml)>,
    p: Seq<(String, Yaml)>,
    t: Seq<char>,
)
    requires
        keys_put(o, p, t),
    ensures
        yaml::opt_str(yaml::opt_entry(yaml::option(p, "ech-opts"@), "config"@)) == Some(t),
        ech_query(p) is None,
{
    lemma_option_at(o, "ech-opts"@, 0);
    let i = option_at(o, "ech-opts"@, 0)->0;
    assert(p[i].0 == o[i].0);
    assert forall|j: int| 0 <= j < i implies (#[trigger] p[j]).0@ != "ech-opts"@ by {
        assert(p[j] == o[j]);
    }
    lemma_first_option(p, "ech-opts"@, i, 0);
    lemma_option_at(p, "ech-opts"@, 0);
    let m = o[i].1->Mapping_0@;
    let n = p[i].1->Mapping_0@;
    lemma_entry_at(m, "config"@, 0);
    match entry_at(m, "config"@, 0) {
        Some(k) => {
            assert forall|j: int| 0 <= j < k implies !yaml::is_text(
                (#[trigger] n[j]).0,
                "config"@,
            ) by {
                assert(n[j] == m[j]);
            }
            lemma_first_entry(n, "config"@, k, 0);
        },
        None => {
            let k = m.len() as int;
            assert forall|j: int| 0 <= j < k implies !yaml::is_text(
                (#[trigger] n[j]).0,
                "config"@,
            ) by {
                assert(n[j] == n.take(k)[j]);
                assert(m[j] == n.take(k)[j]);
            }
            lemma_first_entry(n, "config"@, k, 0);
        },
    }
    lemma_entry_at(n, "config"@, 0);
}

fn put_config(m: Vec<(Yaml, Yaml)>, t: String) -> (n: Vec<(Yaml, Yaml)>)
    ensures
        config_put(m@, n@, t@),
{
    let ghost all = m@;
    proof {
        lemma_entry_at(all, "config"@, 0);
    }
    let mut at: usize = 0;
    while at < m.len()
        invariant_except_break
            at <= m@.len(),
            all == m@,
            entry_at(all, "config"@, 0) == entry_at(all, "config"@, at as int),
        ensures
            all == m@,
            at <= m@.len(),
            entry_at(all, "config"@, 0) == (if at < m@.len() {
                Some(at as int)
            } else {
                None
            }),
        decreases m@.len() - at,
    {
        let found = match &m[at].0 {
            Yaml::Text(k) => text::same(k.as_str(), "config"),
            _ => false,
        };
        if found {
            break;
        }
        at += 1;
    }
    let mut n = m;
    if at < n.len() {
        let (k, _old) = n.remove(at);
        n.insert(at, (k, Yaml::Text(t)));
    } else {
        n.push((Yaml::Text("config".to_owned()), Yaml::Text(t)));
        assert(n@.take(all.len() as int) =~= all);
    }
    n
}

/// The options of a proxy with the keys that came for it, as text.
pub fn put_keys(o: Options, keys: &Vec<u8>) -> (p: Options)
    requires
        codec::base64_len(keys@.len()) <= isize::MAX,
        ech_query(o@) is Some,
    ensures
        keys_put(o@, p@, codec::base64_encoded(keys@)),
        codec::decodes_to(codec::base64_encoded(keys@), keys@),
{
    let ghost all = o@;
    proof {
        lemma_option_at(all, "ech-opts"@, 0);
    }
    let mut at: usize = 0;
    while at < o.len()
        invariant_except_break
            at <= o@.len(),
            all == o@,
            option_at(all, "ech-opts"@, 0) == option_at(all, "ech-opts"@, at as int),
        ensures
            all == o@,
            at <= o@.len(),
            option_at(all, "ech-opts"@, 0) == (if at < o@.len() {
                Some(at as int)
            } else {
                None
            }),
        decreases o@.len() - at,
    {
        if text::same(o[at].0.as_str(), "ech-opts") {
            break;
        }
        at += 1;
    }
    let t = codec::base64_encode(keys.as_slice());
    let mut p = o;
    let (name, value) = p.remove(at);
    let value = match value {
        Yaml::Mapping(m) => Yaml::Mapping(put_config(m, t)),
        other => other,
    };
    p.insert(at, (name, value));
    p
}

/// What came for each of a list of proxies.
pub open spec fn resolved_as(
    o: Seq<Options>,
    fetched: Seq<Option<Vec<u8>>>,
    p: Seq<Options>,
) -> bool {
    &&& p.len() == o.len()
    &&& forall|i: int|
        0 <= i < o.len() ==> if fetched[i] is Some && ech_query(o[i]@) is Some {
            let keys = fetched[i]->0@;
            &&& keys_put(o[i]@, (#[trigger] p[i])@, codec::base64_encoded(keys))
            &&& codec::decodes_to(codec::base64_encoded(keys), keys)
        } else {
            p[i] == o[i]
        }
}

/// Whether the options of a proxy give keys.
pub open spec fn gives_keys(o: Seq<(String, Yaml)>) -> bool {
    yaml::opt_str(yaml::opt_entry(yaml::option(o, "ech-opts"@), "config"@)) is Some
}

/// Keys are put in place once. Where they came for a proxy that wanted them, the proxy
/// gives them from then on; every other proxy is as it was. Another run, whatever it
/// brings, leaves each proxy alone that gives keys.
pub proof fn law_keys_are_put_once(
    o: Seq<Options>,
    fetched: Seq<Option<Vec<u8>>>,
    p: Seq<Options>,
    again: Seq<Option<Vec<u8>>>,
    q: Seq<Options>,
    i: int,
)
    requires
        resolved_as(o, fetched, p),
        resolved_as(p, again, q),
        0 <= i < o.len(),
    ensures
        fetched[i] is Some && ech_query(o[i]@) is Some ==> gives_keys(p[i]@),
        fetched[i] is None || ech_query(o[i]@) is None ==> p[i] == o[i],
        gives_keys(o[i]@) ==> p[i] == o[i],
        gives_keys(p[i]@) ==> q[i] == p[i],
{
    if fetched[i] is Some && ech_query(o[i]@) is Some {
        law_keys_are_read_back(o[i]@, p[i]@, codec::base64_encoded(fetched[i]->0@));
    }
}

/// The proxies with the keys that came for them. A proxy for which none came, or
/// that wants none, is as it was.
pub fn preresolve_ech(proxies: Vec<Options>, fetched: &Vec<Option<Vec<u8>>>) -> (out: Vec<Options>)
    requires
        proxies@.len() == fetched@.len(),
        forall|i: int|
            0 <= i < fetched@.len() ==> ((#[trigger] fetched@[i]) matches Some(k)
                ==> codec::base64_len(k@.len()) <= isize::MAX),
    ensures
        resolved_as(proxies@, fetched@, out@),
{
    let ghost all = proxies@;
    let mut rest = proxies;
    let mut out: Vec<Options> = Vec::new();
    let mut i: usize = 0;
    while i < fetched.len()
        invariant
            i <= fetched@.len(),
            all == proxies@,
            all.len() == fetched@.len(),
            rest@ == all.skip(i as int),
            forall|i: int|
                0 <= i < fetched@.len() ==> ((#[trigger] fetched@[i]) matches Some(k)
                    ==> codec::base64_len(k@.len()) <= isize::MAX),
            out@.len() == i,
            resolved_as(all.take(i as int), fetched@, out@),
        decreases fetched@.len() - i,
    {
        let ghost had = out@;
        let o = rest.remove(0);
        assert(o == all[i as int]);
        assert(rest@ =~= all.skip(i + 1));
        let wanted = query_of(&o).is_some();
        let p = match &fetched[i] {
            Some(keys) => if wanted {
                put_keys(o, keys)
            } else {
                o
            },
            None => o,
        };
        out.push(p);
        proof {
            let t = all.take(i + 1);
            assert forall|j: int| 0 <= j < t.len() implies if fetched@[j] is Some && ech_query(
                t[j]@,
            ) is Some {
                let keys = fetched@[j]->0@;
                &&& keys_put(t[j]@, (#[trigger] out@[j])@, codec::base64_encoded(keys))
                &&& codec::decodes_to(codec::base64_encoded(keys), keys)
            } else {
                out@[j] == t[j]
            } by {
                if j < i {
                    assert(t[j] == all.take(i as int)[j]);
                    assert(out@[j] == had[j]);
                }
            }
        }
        i += 1;
    }
    assert(all.take(i as int) =~= all);
    out
}

} // verus!
