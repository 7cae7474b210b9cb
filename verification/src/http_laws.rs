//! What holds of what is asked over HTTP and of how answers are read.

use crate::http;
use crate::http::{Fetch, FetchStep, Outcome, PartsView, Request, UrlParts};
use crate::number;
use crate::text;
use vstd::prelude::*;
use vstd::string::*;

verus! {

proof fn lemma_schemes()
    ensures
        "https"@ != "http"@,
        "https"@.len() == 5,
        "http"@.len() == 4,
{
    reveal_strlit("https");
    reveal_strlit("http");
    assert("https"@.len() == 5);
    assert("http"@.len() == 4);
}

/// The host goes by its name alone at the port that its scheme has of itself, and by name
/// and port at every other: two ports of one host are never confused.
pub proof fn law_ports_tell_hosts_apart(host: Seq<char>, p: u16, q: u16, https: bool)
    ensures
        http::host_text(host, 443, true) == host,
        http::host_text(host, 80, false) == host,
        http::host_text(host, 80, true) == host + seq![':', '8', '0'],
        http::host_text(host, 443, false) == host + seq![':', '4', '4', '3'],
        p != q ==> http::host_text(host, p, https) != http::host_text(host, q, https),
        p != (if https {
            443
        } else {
            80int
        }) ==> http::host_text(host, p, https) == host.push(':') + number::decimal(p as nat),
{
    reveal_strlit(":");
    reveal_with_fuel(number::decimal, 4);
    assert(http::host_text(host, 80, true) =~= host + seq![':', '8', '0']);
    assert(http::host_text(host, 443, false) =~= host + seq![':', '4', '4', '3']);
    let a = number::decimal(p as nat);
    let b = number::decimal(q as nat);
    assert(host + ":"@ + a =~= host.push(':') + a);
    assert(host + ":"@ + b =~= host.push(':') + b);
    if p != q && http::host_text(host, p, https) == http::host_text(host, q, https) {
        number::law_decimals_are_read_back(p as nat, u16::MAX as nat);
        number::law_decimals_are_read_back(q as nat, u16::MAX as nat);
        let x = host.push(':') + a;
        let y = host.push(':') + b;
        if http::host_text(host, p, https).len() > host.len() {
            assert(x.skip(host.len() as int + 1) =~= a);
            assert(y.skip(host.len() as int + 1) =~= b);
        }
    }
}

/// Only addresses of the two schemes with a host and a port are asked, and what is asked
/// is the path with the query behind a question mark, at that host and port, encrypted
/// for the one scheme alone. What is sent starts with the line that asks and ends with an
/// empty line.
pub proof fn law_what_is_asked(u: &UrlParts, version: &str, r: Result<Request, String>)
    requires
        call_ensures(http::request_for, (u, version), r),
    ensures
        r is Ok <==> (u.scheme@ == "http"@ || u.scheme@ == "https"@) && u.host is Some
            && u.port is Some,
        r matches Ok(q) ==> {
            &&& q.host@ == u.host->0@
            &&& q.port == u.port->0
            &&& q.https <==> u.scheme@ == "https"@
            &&& u.query is None ==> ("GET "@ + u.path@ + " HTTP/1.1\r\n"@).is_prefix_of(q.text@)
            &&& u.query is Some ==> ("GET "@ + u.path@ + "?"@ + u.query->0@
                + " HTTP/1.1\r\n"@).is_prefix_of(q.text@)
            &&& "\r\n\r\n"@.is_suffix_of(q.text@)
            &&& text::has_substring(
                q.text@,
                "\r\nHost: "@ + http::host_text(q.host@, q.port, q.https) + "\r\n"@,
            )
            &&& text::has_substring(q.text@, "User-Agent: clash.meta/"@ + version@ + "\r\n"@)
            &&& text::has_substring(q.text@, "\r\nConnection: close\r\n"@)
        },
        r matches Err(e) ==> u.text@.is_suffix_of(e@),
{
    lemma_schemes();
    match r {
        Ok(q) => {
            let target = http::target_of(http::parts_view(*u));
            lemma_request(target, q.host@, q.port, q.https, version@);
            reveal_strlit("?");
            if u.query is Some {
                assert(target == u.path@ + "?"@ + u.query->0@);
                assert("GET "@ + target + " HTTP/1.1\r\n"@ =~= "GET "@ + u.path@ + "?"@
                    + u.query->0@ + " HTTP/1.1\r\n"@);
            }
        },
        Err(e) => {
            assert(e@.subrange(e@.len() - u.text@.len(), e@.len() as int) =~= u.text@);
        },
    }
}

proof fn lemma_request(
    target: Seq<char>,
    host: Seq<char>,
    port: u16,
    https: bool,
    version: Seq<char>,
)
    ensures
        ({
            let t = http::request_text(target, host, port, https, version);
            &&& ("GET "@ + target + " HTTP/1.1\r\n"@).is_prefix_of(t)
            &&& "\r\n\r\n"@.is_suffix_of(t)
            &&& text::has_substring(
                t,
                "\r\nHost: "@ + http::host_text(host, port, https) + "\r\n"@,
            )
            &&& text::has_substring(t, "User-Agent: clash.meta/"@ + version + "\r\n"@)
            &&& text::has_substring(t, "\r\nConnection: close\r\n"@)
        }),
{
    let t = http::request_text(target, host, port, https, version);
    let h = http::host_text(host, port, https);
    reveal_strlit("GET ");
    reveal_strlit(" HTTP/1.1\r\n");
    reveal_strlit(" HTTP/1.1\r\nHost: ");
    reveal_strlit("\r\nHost: ");
    reveal_strlit("\r\n");
    reveal_strlit("\r\n\r\n");
    reveal_strlit("\r\nUser-Agent: clash.meta/");
    reveal_strlit("User-Agent: clash.meta/");
    reveal_strlit("\r\nConnection: close\r\n");
    reveal_strlit("\r\nAccept: */*\r\nAccept-Encoding: identity\r\nConnection: close\r\n\r\n");
    let end = "\r\nAccept: */*\r\nAccept-Encoding: identity\r\nConnection: close\r\n\r\n"@;
    let first = "GET "@ + target + " HTTP/1.1\r\n"@;
    assert(t.subrange(0, first.len() as int) =~= first);
    assert(t.subrange(t.len() - 4, t.len() as int) =~= "\r\n\r\n"@);
    let at: int = "GET "@.len() as int + target.len() as int + 9;
    let hosts = "\r\nHost: "@ + h + "\r\n"@;
    assert(t.subrange(at, at + hosts.len()) =~= hosts);
    assert(text::occurs_at(t, at, hosts));
    let agent = "User-Agent: clash.meta/"@ + version + "\r\n"@;
    let then: int = at + 8 + h.len() as int + 2;
    assert(t.subrange(then, then + agent.len()) =~= agent);
    assert(text::occurs_at(t, then, agent));
    let close = "\r\nConnection: close\r\n"@;
    let last: int = t.len() as int - 2 - close.len() as int;
    assert(t.subrange(last, last + close.len()) =~= close);
    assert(text::occurs_at(t, last, close));
}

/// An answer is a body exactly where its status is one of the two hundreds, and the body
/// is what stands behind the head. It sends on exactly where its status is one of the
/// three hundreds and the first header that names a place is text. Every other answer
/// fails.
pub proof fn law_how_answers_are_read(
    r: Result<Outcome, String>,
    len: nat,
    status: Option<u16>,
    headers: Seq<(Seq<char>, Seq<u8>)>,
    head: Seq<u8>,
    body: Seq<u8>,
)
    requires
        head.len() == len,
        http::outcome_ok(r, Ok(Some((len, status, headers))), head + body),
    ensures
        (r matches Ok(Outcome::Body(_))) <==> (status matches Some(n) && 200 <= n <= 299),
        r matches Ok(Outcome::Body(b)) ==> b@ == body,
        r is Ok ==> (status matches Some(n) && 200 <= n <= 399),
        r matches Ok(Outcome::Redirect(to)) ==> (status matches Some(n) && 300 <= n <= 399) && (
        exists|i: int|
            0 <= i < headers.len() && text::ascii_lower((#[trigger] headers[i]).0) == "location"@
                && vstd::utf8::decode_utf8(headers[i].1) == to@),
        (status matches Some(n) && 300 <= n <= 399) && r is Err ==> forall|i: int|
            0 <= i < headers.len() && text::ascii_lower((#[trigger] headers[i]).0) == "location"@
                && (forall|j: int|
                0 <= j < i ==> text::ascii_lower((#[trigger] headers[j]).0) != "location"@)
                ==> !vstd::utf8::valid_utf8(headers[i].1),
{
    assert((head + body).skip(len as int) =~= body);
    law_the_first_place_counts(headers, 0);
}

/// Of the headers that name a place, whatever the case of their letters, the first counts.
pub proof fn law_the_first_place_counts(h: Seq<(Seq<char>, Seq<u8>)>, from: int)
    requires
        0 <= from <= h.len(),
    ensures
        http::location_at(h, from) matches Some(i) ==> from <= i < h.len() && text::ascii_lower(
            h[i].0,
        ) == "location"@ && forall|j: int|
            from <= j < i ==> text::ascii_lower((#[trigger] h[j]).0) != "location"@,
        http::location_at(h, from) is None ==> forall|j: int|
            from <= j < h.len() ==> text::ascii_lower((#[trigger] h[j]).0) != "location"@,
    decreases h.len() - from,
{
    if from < h.len() {
        law_the_first_place_counts(h, from + 1);
    }
}

/// A fetch that is sent on a sixth time fails; until then it goes to where the answer
/// says, seen from where it is, and remembers where it began. A body ends it with that
/// body, and a failure ends it with that failure.
pub proof fn law_five_redirects_are_followed(s: FetchStep, f: Fetch, o: Result<Outcome, String>)
    requires
        http::fetch_ok(s, f, o),
    ensures
        f.redirects >= 5 ==> !(s is Ask),
        s is Ask <==> (o matches Ok(Outcome::Redirect(to)) && f.redirects < 5 && http::url_joined(
            f.current.text@,
            to@,
        ) is Ok),
        s matches FetchStep::Ask(g) ==> g.redirects == f.redirects + 1 && g.start@ == f.start@ && (
        o matches Ok(Outcome::Redirect(to)) && http::url_joined(f.current.text@, to@) == Ok::<
            PartsView,
            Seq<char>,
        >(http::parts_view(g.current))),
        s matches FetchStep::Done(d) ==> (o matches Ok(Outcome::Body(b)) && b@ == d@),
        o matches Ok(Outcome::Body(b)) ==> s is Done,
        o matches Err(e) ==> (s matches FetchStep::Failed(m) && m@ == e@),
{
}

/// What is sent on goes the same way when the joined address is given.
pub proof fn law_sent_on(
    f: Fetch,
    to: &str,
    joined: Result<UrlParts, String>,
    s: FetchStep,
)
    requires
        call_ensures(http::sent_on, (f, to, joined), s),
    ensures
        s is Ask <==> joined is Ok && f.redirects < 5,
        s matches FetchStep::Ask(g) ==> g == (Fetch {
            start: g.start,
            current: joined->Ok_0,
            redirects: (f.redirects + 1) as u8,
        }) && g.start@ == f.start@,
        !(s is Done),
{
}

/// A fetch begins where it is told, with nothing followed yet.
pub proof fn law_fetches_begin(url: &str, parsed: Result<UrlParts, String>, r: Result<Fetch, String>)
    requires
        call_ensures(http::fetch_at, (url, parsed), r),
    ensures
        r is Ok <==> parsed is Ok,
        r matches Ok(f) ==> f.start@ == url@ && f.current == parsed->Ok_0 && f.redirects == 0,
{
}

/// A quarter of a gibibyte is the most that is read.
pub proof fn law_bodies_have_a_limit()
    ensures
        http::MAX_BODY_BYTES == 256 * 1024 * 1024,
{
}

} // verus!
