//! Questions to the resolver.

use crate::api::reply;
use crate::api::reply::Reply;
use crate::config::raw::RawConfig;
use crate::net;
use crate::net::IpAddr;
use crate::text;
use vstd::prelude::*;
use vstd::string::*;

verus! {

/// What `hickory_proto::rr::RecordType` makes of the name of a type of records: the
/// number of the type.
pub uninterp spec fn record_code(s: Seq<char>) -> Option<u16>;

/// Whether a text has no small letter of ASCII.
pub open spec fn no_small_letter(s: Seq<char>) -> bool {
    forall|i: int| 0 <= i < s.len() ==> !('a' <= #[trigger] s[i] <= 'z')
}

/// `RecordType::from_str` of `hickory_proto`: the type that a text names, as its
/// number. It wants capital letters. `A` is number 1, and `AAAA` is number 28.
#[verifier::external_body]
pub(crate) fn record_type(s: &str) -> (r: Option<u16>)
    requires
        no_small_letter(s@),
    ensures
        r == record_code(s@),
        s@ == "A"@ ==> r == Some(1u16),
        s@ == "AAAA"@ ==> r == Some(28u16),
        r == Some(1u16) ==> s@ == "A"@,
        r == Some(28u16) ==> s@ == "AAAA"@,
{
    s.parse::<hickory_proto::rr::RecordType>().ok().map(u16::from)
}

/// The number of the records that hold addresses of four bytes.
pub const TYPE_A: u16 = 1;

/// The number of the records that hold addresses of sixteen bytes.
pub const TYPE_AAAA: u16 = 28;

/// How many seconds an answer that the resolver gave is good for.
pub const ANSWER_TTL: u32 = 60;

/// A question to the resolver.
#[derive(Clone, Debug)]
pub struct Question {
    /// The name, with a dot at its end.
    pub fqdn: String,
    pub qtype: u16,
}

/// The name of a question, with a dot at its end.
pub open spec fn dotted_end(name: Seq<char>) -> Seq<char> {
    if name.len() > 0 && name.last() == '.' {
        name
    } else {
        name + "."@
    }
}

/// Whether the resolver is switched on.
pub open spec fn resolver_on(raw: RawConfig) -> bool {
    raw.dns matches Some(d) && d.enable == Some(true)
}

/// The type that a question asks for.
pub open spec fn type_asked(qtype: Option<Seq<char>>) -> Seq<char> {
    text::ascii_upper(
        match qtype {
            Some(t) => t,
            None => "A"@,
        },
    )
}

/// Reads a question: the resolver must be on, and the type known.
pub fn dns_query_get(raw: &RawConfig, name: &str, qtype: &Option<String>) -> (r: Result<
    Question,
    Reply,
>)
    ensures
        (match (r, record_code(type_asked(text::opt_view(*qtype)))) {
            (Ok(q), Some(code)) => resolver_on(*raw) && q.qtype == code && q.fqdn@ == dotted_end(
                name@,
            ),
            (Err(e), code) => if !resolver_on(*raw) {
                e@ == reply::told(500, "DNS section is disabled"@)
            } else {
                code is None && e@ == reply::told(400, "invalid query type"@)
            },
            _ => false,
        }),
{
    let on = match &raw.dns {
        Some(d) => match d.enable {
            Some(b) => b,
            None => false,
        },
        None => false,
    };
    if !on {
        return Err(reply::msg_err(reply::INTERNAL_SERVER_ERROR, "DNS section is disabled"));
    }
    let asked = match qtype {
        Some(t) => t.as_str(),
        None => "A",
    };
    let upper = text::to_ascii_upper(asked);
    assert(no_small_letter(upper@));
    question(record_type(upper.as_str()), name)
}

/// The question for a type that was looked up.
pub fn question(code: Option<u16>, name: &str) -> (r: Result<Question, Reply>)
    ensures
        (match (r, code) {
            (Ok(q), Some(c)) => q.qtype == c && q.fqdn@ == dotted_end(name@),
            (Err(e), None) => e@ == reply::told(400, "invalid query type"@),
            _ => false,
        }),
{
    match code {
        Some(qtype) => {
            let c = text::chars_of(name);
            let n: usize = c.len();
            let fqdn = if n > 0 && c[n - 1] == '.' {
                name.to_owned()
            } else {
                name.to_owned().concat(".")
            };
            Ok(Question { fqdn, qtype })
        },
        None => Err(reply::msg_err(reply::BAD_REQUEST, "invalid query type")),
    }
}

/// A record of an answer.
#[derive(Clone, Debug)]
pub struct DnsRecord {
    pub name: String,
    pub rtype: u16,
    pub ttl: u32,
    pub data: String,
}

/// A [`DnsRecord`] with its texts as sequences.
pub struct RecordView {
    pub name: Seq<char>,
    pub rtype: u16,
    pub ttl: u32,
    pub data: Seq<char>,
}

impl View for DnsRecord {
    type V = RecordView;

    open spec fn view(&self) -> RecordView {
        RecordView { name: self.name@, rtype: self.rtype, ttl: self.ttl, data: self.data@ }
    }
}

/// Records with their texts as sequences.
pub open spec fn records(v: Seq<DnsRecord>) -> Seq<RecordView> {
    v.map_values(|r: DnsRecord| r@)
}

/// An answer. A list that is empty is left out where the answer is written.
#[derive(Clone, Debug)]
pub struct DnsAnswer {
    pub status: u16,
    pub truncated: bool,
    pub recursion_desired: bool,
    pub recursion_available: bool,
    pub authentic_data: bool,
    pub checking_disabled: bool,
    pub answers: Vec<DnsRecord>,
    pub authorities: Vec<DnsRecord>,
    pub additionals: Vec<DnsRecord>,
}

/// Whether an address is of the family that a type asks for.
pub open spec fn fits(ip: IpAddr, qtype: u16) -> bool {
    match ip {
        IpAddr::V4(_) => qtype == TYPE_A,
        IpAddr::V6(_) => qtype == TYPE_AAAA,
    }
}

/// The records that hold the addresses of a name.
pub open spec fn address_records(ips: Seq<IpAddr>, q: Question) -> Seq<RecordView>
    decreases ips.len(),
{
    if ips.len() == 0 {
        Seq::empty()
    } else {
        let r = address_records(ips.drop_last(), q);
        if fits(ips.last(), q.qtype) {
            r.push(
                RecordView {
                    name: q.fqdn@,
                    rtype: q.qtype,
                    ttl: ANSWER_TTL,
                    data: net::ip_text(ips.last()),
                },
            )
        } else {
            r
        }
    }
}

/// Answers a question for addresses with those that were found.
pub fn address_answer(q: &Question, ips: &Vec<IpAddr>) -> (a: DnsAnswer)
    ensures
        a.status == 0,
        !a.truncated,
        a.recursion_desired,
        a.recursion_available,
        !a.authentic_data,
        !a.checking_disabled,
        records(a.answers@) == address_records(ips@, *q),
        a.authorities@.len() == 0,
        a.additionals@.len() == 0,
{
    let mut answers: Vec<DnsRecord> = Vec::new();
    let mut i: usize = 0;
    assert(ips@.take(0) =~= Seq::empty());
    assert(records(answers@) =~= Seq::empty());
    while i < ips.len()
        invariant
            i <= ips@.len(),
            records(answers@) == address_records(ips@.take(i as int), *q),
        decreases ips@.len() - i,
    {
        assert(ips@.take(i + 1).drop_last() =~= ips@.take(i as int));
        assert(ips@.take(i + 1).last() == ips@[i as int]);
        let fit = match ips[i] {
            IpAddr::V4(_) => q.qtype == TYPE_A,
            IpAddr::V6(_) => q.qtype == TYPE_AAAA,
        };
        if fit {
            let r = DnsRecord {
                name: q.fqdn.clone(),
                rtype: q.qtype,
                ttl: ANSWER_TTL,
                data: net::format_ip(ips[i]),
            };
            let ghost had = records(answers@);
            answers.push(r);
            assert(records(answers@) =~= had.push(r@));
        }
        i += 1;
    }
    assert(ips@.take(i as int) =~= ips@);
    DnsAnswer {
        status: 0,
        truncated: false,
        recursion_desired: true,
        recursion_available: true,
        authentic_data: false,
        checking_disabled: false,
        answers,
        authorities: Vec::new(),
        additionals: Vec::new(),
    }
}

/// Whether a question is for addresses, which the resolver finds itself.
pub fn asks_for_addresses(q: &Question) -> (r: bool)
    ensures
        r == (q.qtype == TYPE_A || q.qtype == TYPE_AAAA),
{
    q.qtype == TYPE_A || q.qtype == TYPE_AAAA
}

/// Answers any other question with what a server said.
pub fn forwarded_answer(message: Option<DnsAnswer>) -> (r: Result<DnsAnswer, Reply>)
    ensures
        (match (message, r) {
            (Some(m), Ok(a)) => a == m,
            (None, Err(e)) => e@ == reply::told(500, "DNS query failed"@),
            _ => false,
        }),
{
    match message {
        Some(m) => Ok(m),
        None => Err(reply::msg_err(reply::INTERNAL_SERVER_ERROR, "DNS query failed")),
    }
}

/// An answer for addresses holds only addresses of the family that was asked for.
pub proof fn law_answers_are_of_the_type(ips: Seq<IpAddr>, q: Question, i: int)
    requires
        0 <= i < address_records(ips, q).len(),
    ensures
        address_records(ips, q)[i].rtype == q.qtype,
        exists|k: int|
            0 <= k < ips.len() && fits(#[trigger] ips[k], q.qtype) && address_records(
                ips,
                q,
            )[i].data == net::ip_text(ips[k]),
    decreases ips.len(),
{
    let f = ips.drop_last();
    if i < address_records(f, q).len() {
        law_answers_are_of_the_type(f, q, i);
        let k = choose|k: int|
            0 <= k < f.len() && fits(#[trigger] f[k], q.qtype) && address_records(f, q)[i].data
                == net::ip_text(f[k]);
        assert(ips[k] == f[k]);
    } else {
        assert(ips[ips.len() - 1] == ips.last());
    }
}

/// How many results are shown where a request does not say.
pub const USUAL_RESULTS: usize = 256;

/// How many results are shown at most.
pub const MOST_RESULTS: usize = 1024;

/// How many results of the resolver are shown.
pub fn results_limit(limit: Option<usize>) -> (n: usize)
    ensures
        n == (match limit {
            Some(l) => if l <= MOST_RESULTS {
                l
            } else {
                MOST_RESULTS
            },
            None => USUAL_RESULTS,
        }),
{
    match limit {
        Some(l) => if l <= MOST_RESULTS {
            l
        } else {
            MOST_RESULTS
        },
        None => USUAL_RESULTS,
    }
}

/// A name that the resolver knows.
#[derive(Clone, Debug)]
pub struct KnownName {
    pub name: String,
    pub ips: Vec<IpAddr>,
    /// The server that told it.
    pub source: Option<String>,
    /// For how many seconds it is good.
    pub ttl: u64,
}

/// What is told of a name that the resolver knows.
#[derive(Clone, Debug)]
pub struct DnsResultEntry {
    pub name: String,
    pub ips: Vec<String>,
    pub from_server: Option<String>,
    pub ttl: u64,
}

/// Addresses as texts.
pub open spec fn ip_texts(v: Seq<IpAddr>) -> Seq<Seq<char>> {
    v.map_values(|ip: IpAddr| net::ip_text(ip))
}

/// Whether what is told of a name is so.
pub open spec fn name_told(e: DnsResultEntry, k: KnownName) -> bool {
    &&& e.name == k.name
    &&& text::views(e.ips@) == ip_texts(k.ips@)
    &&& e.from_server == k.source
    &&& e.ttl == k.ttl
}

/// Tells of a name that the resolver knows.
pub fn dns_result(k: KnownName) -> (e: DnsResultEntry)
    ensures
        name_told(e, k),
{
    let mut ips = text::no_strings();
    let mut i: usize = 0;
    assert(ip_texts(k.ips@).take(0) =~= Seq::empty());
    while i < k.ips.len()
        invariant
            i <= k.ips@.len(),
            text::views(ips@) == ip_texts(k.ips@).take(i as int),
        decreases k.ips@.len() - i,
    {
        text::push_string(&mut ips, net::format_ip(k.ips[i]));
        assert(ip_texts(k.ips@).take(i + 1) =~= ip_texts(k.ips@).take(i as int).push(
            net::ip_text(k.ips@[i as int]),
        ));
        i += 1;
    }
    assert(ip_texts(k.ips@).take(i as int) =~= ip_texts(k.ips@));
    DnsResultEntry { name: k.name, ips, from_server: k.source, ttl: k.ttl }
}

/// The answer to a request to forget every fake address, given what came of it.
pub fn flush_fakeip_cache(flushed: Result<(), String>) -> (r: Reply)
    ensures
        r@ == (match flushed {
            Ok(_) => reply::bare(204),
            Err(e) => reply::told(400, e@),
        }),
{
    match flushed {
        Ok(_) => reply::only(reply::NO_CONTENT),
        Err(e) => reply::msg_err(reply::BAD_REQUEST, e.as_str()),
    }
}

} // verus!
