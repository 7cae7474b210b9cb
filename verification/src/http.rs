//! A small HTTP client: what it asks, how it reads answers, and where it is sent
//! on to.

use crate::number;
use crate::text;
use vstd::prelude::*;
use vstd::string::*;

verus! {

/// The parts of an address on the web.
#[derive(Clone, Debug)]
pub struct UrlParts {
    /// The whole address.
    pub text: String,
    pub scheme: String,
    pub host: Option<String>,
    /// The port, or the usual one of the scheme.
    pub port: Option<u16>,
    pub path: String,
    pub query: Option<String>,
}

/// The parts of an address as mathematical values: the whole address, the scheme,
/// the host, the port, the path and the query.
pub type PartsView = (
    Seq<char>,
    Seq<char>,
    Option<Seq<char>>,
    Option<u16>,
    Seq<char>,
    Option<Seq<char>>,
);

/// The parts of an address as mathematical values.
pub open spec fn parts_view(u: UrlParts) -> PartsView {
    (u.text@, u.scheme@, text::opt_view(u.host), u.port, u.path@, text::opt_view(u.query))
}

/// The parts of an address, or how it is told that there is none.
pub open spec fn url_view(r: Result<UrlParts, String>) -> Result<PartsView, Seq<char>> {
    match r {
        Ok(u) => Ok(parts_view(u)),
        Err(e) => Err(e@),
    }
}

/// What a text is as an address: the whole address, the scheme, the host, the port,
/// the path and the query, or how it is told that it is none.
pub uninterp spec fn url_parsed(s: Seq<char>) -> Result<
    (Seq<char>, Seq<char>, Option<Seq<char>>, Option<u16>, Seq<char>, Option<Seq<char>>),
    Seq<char>,
>;

/// What a reference is, seen from an address.
pub uninterp spec fn url_joined(base: Seq<char>, reference: Seq<char>) -> Result<
    (Seq<char>, Seq<char>, Option<Seq<char>>, Option<u16>, Seq<char>, Option<Seq<char>>),
    Seq<char>,
>;

/// `url::Url::parse` reads an address; its accessors give its parts, the port with
/// the usual one of the scheme in its place.
#[verifier::external_body]
pub(crate) fn parse_url(s: &str) -> (r: Result<UrlParts, String>)
    ensures
        url_view(r) == url_parsed(s@),
{
    let u = url::Url::parse(s).map_err(|e| e.to_string())?;
    Ok(
        UrlParts {
            text: u.as_str().to_owned(),
            scheme: u.scheme().to_owned(),
            host: u.host_str().map(|h| h.to_owned()),
            port: u.port_or_known_default(),
            path: u.path().to_owned(),
            query: u.query().map(|q| q.to_owned()),
        },
    )
}

/// `url::Url::join` reads a reference as it is seen from an address; the accessors
/// of the result give its parts, the port with the usual one of the scheme in its
/// place.
#[verifier::external_body]
pub(crate) fn join_url(base: &str, reference: &str) -> (r: Result<UrlParts, String>)
    ensures
        url_view(r) == url_joined(base@, reference@),
{
    let b = url::Url::parse(base).map_err(|e| e.to_string())?;
    let u = b.join(reference).map_err(|e| e.to_string())?;
    Ok(
        UrlParts {
            text: u.as_str().to_owned(),
            scheme: u.scheme().to_owned(),
            host: u.host_str().map(|h| h.to_owned()),
            port: u.port_or_known_default(),
            path: u.path().to_owned(),
            query: u.query().map(|q| q.to_owned()),
        },
    )
}

/// The host as a request names it: with its port, unless it is the usual one.
pub open spec fn host_text(host: Seq<char>, port: u16, https: bool) -> Seq<char> {
    if port == (if https {
        443u16
    } else {
        80u16
    }) {
        host
    } else {
        host + ":"@ + number::decimal(port as nat)
    }
}

/// The host as a request names it.
pub fn host_header(host: &str, port: u16, is_https: bool) -> (s: String)
    ensures
        s@ == host_text(host@, port, is_https),
{
    let usual: u16 = if is_https {
        443
    } else {
        80
    };
    if port == usual {
        host.to_owned()
    } else {
        let n = number::to_decimal(port as u64);
        host.to_owned().concat(":").concat(n.as_str())
    }
}

/// A request: where it goes, whether encrypted, and its text.
#[derive(Clone, Debug)]
pub struct Request {
    pub host: String,
    pub port: u16,
    pub https: bool,
    pub text: String,
}

/// What is asked for: the path, with the query behind it.
pub open spec fn target_of(p: PartsView) -> Seq<char> {
    match p.5 {
        Some(q) => p.4 + "?"@ + q,
        None => p.4,
    }
}

/// Why no request can be made for an address.
pub open spec fn request_error(p: PartsView) -> Option<Seq<char>> {
    if p.1 != "https"@ && p.1 != "http"@ {
        Some("unsupported URL scheme '"@ + p.1 + "': "@ + p.0)
    } else if p.2 is None {
        Some("URL has no host: "@ + p.0)
    } else if p.3 is None {
        Some("URL has no port: "@ + p.0)
    } else {
        None
    }
}

/// The text of a request.
pub open spec fn request_text(
    target: Seq<char>,
    host: Seq<char>,
    port: u16,
    https: bool,
    version: Seq<char>,
) -> Seq<char> {
    "GET "@ + target + " HTTP/1.1\r\nHost: "@ + host_text(host, port, https)
        + "\r\nUser-Agent: clash.meta/"@ + version
        + "\r\nAccept: */*\r\nAccept-Encoding: identity\r\nConnection: close\r\n\r\n"@
}

/// Whether a request is the one for an address.
pub open spec fn request_matches(r: Request, p: PartsView, version: Seq<char>) -> bool {
    &&& Some(r.host@) == p.2
    &&& Some(r.port) == p.3
    &&& r.https == (p.1 == "https"@)
    &&& r.text@ == request_text(target_of(p), r.host@, r.port, r.https, version)
}

/// The request for an address.
pub fn request_for(u: &UrlParts, version: &str) -> (r: Result<Request, String>)
    ensures
        (match r {
            Ok(q) => request_error(parts_view(*u)) is None && request_matches(
                q,
                parts_view(*u),
                version@,
            ),
            Err(e) => request_error(parts_view(*u)) == Some(e@),
        }),
{
    let https = text::same(u.scheme.as_str(), "https");
    if !https && !text::same(u.scheme.as_str(), "http") {
        return Err(
            "unsupported URL scheme '".to_owned().concat(u.scheme.as_str()).concat("': ").concat(
                u.text.as_str(),
            ),
        );
    }
    let host = match &u.host {
        Some(h) => h.clone(),
        None => return Err("URL has no host: ".to_owned().concat(u.text.as_str())),
    };
    let port: u16 = match u.port {
        Some(p) => p,
        None => return Err("URL has no port: ".to_owned().concat(u.text.as_str())),
    };
    let target = match &u.query {
        Some(q) => u.path.as_str().to_owned().concat("?").concat(q.as_str()),
        None => u.path.clone(),
    };
    let header = host_header(host.as_str(), port, https);
    let t = "GET ".to_owned().concat(target.as_str()).concat(" HTTP/1.1\r\nHost: ").concat(
        header.as_str(),
    ).concat("\r\nUser-Agent: clash.meta/").concat(version).concat(
        "\r\nAccept: */*\r\nAccept-Encoding: identity\r\nConnection: close\r\n\r\n",
    );
    Ok(Request { host, port, https, text: t })
}

/// The most bytes of an answer that are read.
pub const MAX_BODY_BYTES: usize = 268435456;

/// Takes the next bytes of an answer.
pub fn append_chunk(buf: &mut Vec<u8>, chunk: &[u8]) -> (r: Result<(), String>)
    ensures
        (match r {
            Ok(_) => old(buf)@.len() + chunk@.len() <= MAX_BODY_BYTES && final(buf)@ == old(buf)@
                + chunk@,
            Err(e) => old(buf)@.len() + chunk@.len() > MAX_BODY_BYTES && final(buf)@ == old(buf)@
                && e@ == "response exceeds max body size (268435456 bytes)"@,
        }),
{
    let have: usize = buf.len();
    let n: usize = chunk.len();
    if have > MAX_BODY_BYTES || n > MAX_BODY_BYTES - have {
        return Err("response exceeds max body size (268435456 bytes)".to_owned());
    }
    buf.extend_from_slice(chunk);
    Ok(())
}

/// The head of an answer.
#[derive(Debug)]
pub struct Head {
    /// How many bytes the head takes.
    pub len: usize,
    pub status: Option<u16>,
    pub headers: Vec<(String, Vec<u8>)>,
}

/// Headers as mathematical values.
pub open spec fn header_views(h: Seq<(String, Vec<u8>)>) -> Seq<(Seq<char>, Seq<u8>)> {
    h.map_values(|x: (String, Vec<u8>)| (x.0@, x.1@))
}

/// What was read of a head: nothing where more bytes are needed.
pub type ReadHead = Result<Option<Head>, String>;

/// What was read of a head, as mathematical values.
pub open spec fn head_view(r: ReadHead) -> Result<
    Option<(nat, Option<u16>, Seq<(Seq<char>, Seq<u8>)>)>,
    Seq<char>,
> {
    match r {
        Ok(Some(h)) => Ok(Some((h.len as nat, h.status, header_views(h.headers@)))),
        Ok(None) => Ok(None),
        Err(e) => Err(e@),
    }
}

/// The head at the start of bytes: its length, its status and its headers, nothing
/// where more bytes are needed, or how it is told that it is none.
pub uninterp spec fn head_of(buf: Seq<u8>) -> Result<
    Option<(nat, Option<u16>, Seq<(Seq<char>, Seq<u8>)>)>,
    Seq<char>,
>;

/// `httparse::Response::parse` reads the head of an answer with at most 64 headers.
/// The head that it tells is never longer than the bytes.
#[verifier::external_body]
pub(crate) fn read_head(buf: &[u8]) -> (r: ReadHead)
    ensures
        head_view(r) == head_of(buf@),
        r matches Ok(Some(h)) ==> h.len <= buf@.len(),
{
    let mut headers = [httparse::EMPTY_HEADER; 64];
    let mut response = httparse::Response::new(&mut headers);
    let status = response.parse(buf).map_err(|e| e.to_string())?;
    let name_value = |h: &httparse::Header| (h.name.to_owned(), h.value.to_vec());
    let headers = response.headers.iter().map(name_value).collect();
    match status {
        httparse::Status::Complete(len) => Ok(Some(Head { len, status: response.code, headers })),
        httparse::Status::Partial => Ok(None),
    }
}

/// What an answer comes to.
#[derive(Debug)]
pub enum Outcome {
    Body(Vec<u8>),
    /// The answer is elsewhere.
    Redirect(String),
}

/// The header that says where an answer is.
pub open spec fn is_location(name: Seq<char>) -> bool {
    text::ascii_lower(name) == "location"@
}

/// Where the header stands that says where an answer is.
pub open spec fn location_at(h: Seq<(Seq<char>, Seq<u8>)>, from: int) -> Option<int>
    decreases h.len() - from,
{
    if from < 0 || from >= h.len() {
        None
    } else if is_location(h[from].0) {
        Some(from)
    } else {
        location_at(h, from + 1)
    }
}

/// Whether a result is what an answer comes to, given its head.
pub open spec fn outcome_ok(
    r: Result<Outcome, String>,
    head: Result<Option<(nat, Option<u16>, Seq<(Seq<char>, Seq<u8>)>)>, Seq<char>>,
    buf: Seq<u8>,
) -> bool {
    match head {
        Err(e) => r matches Err(m) && m@ == "response parse error: "@ + e,
        Ok(None) => r matches Err(m) && m@ == "incomplete HTTP response (no header terminator)"@,
        Ok(Some((len, status, headers))) => match status {
            None => r matches Err(m) && m@ == "response missing status code"@,
            Some(n) => if 300 <= n < 400 {
                match location_at(headers, 0) {
                    Some(i) => if vstd::utf8::valid_utf8(headers[i].1) {
                        r matches Ok(Outcome::Redirect(to)) && to@ == vstd::utf8::decode_utf8(
                            headers[i].1,
                        )
                    } else {
                        r matches Err(m) && m@ == "non-UTF-8 Location header: "@ + text::utf8_fault(
                            headers[i].1,
                        )
                    },
                    None => r matches Err(m) && m@ == "HTTP "@ + number::decimal(n as nat)
                        + " redirect without Location header"@,
                }
            } else if 200 <= n < 300 {
                r matches Ok(Outcome::Body(b)) && b@ == buf.skip(len as int)
            } else {
                r matches Err(m) && m@ == "HTTP "@ + number::decimal(n as nat)
            },
        },
    }
}

fn find_location(h: &Vec<(String, Vec<u8>)>) -> (r: Option<usize>)
    ensures
        (match r {
            Some(i) => i < h@.len() && location_at(header_views(h@), 0) == Some(i as int),
            None => location_at(header_views(h@), 0) is None,
        }),
{
    let ghost all = header_views(h@);
    let mut i: usize = 0;
    while i < h.len()
        invariant
            i <= h@.len(),
            all == header_views(h@),
            location_at(all, 0) == location_at(all, i as int),
        decreases h@.len() - i,
    {
        assert(all[i as int].0 == h@[i as int].0@);
        let l = text::to_ascii_lower(h[i].0.as_str());
        if text::same(l.as_str(), "location") {
            return Some(i);
        }
        i += 1;
    }
    None
}

/// What an answer comes to, given its head.
pub fn outcome_of(head: &ReadHead, buf: &Vec<u8>) -> (r: Result<Outcome, String>)
    requires
        head matches Ok(Some(h)) ==> h.len <= buf@.len(),
    ensures
        outcome_ok(r, head_view(*head), buf@),
{
    let head = match head {
        Err(e) => return Err("response parse error: ".to_owned().concat(e.as_str())),
        Ok(None) => return Err("incomplete HTTP response (no header terminator)".to_owned()),
        Ok(Some(h)) => h,
    };
    let status: u16 = match head.status {
        Some(n) => n,
        None => return Err("response missing status code".to_owned()),
    };
    if 300 <= status && status < 400 {
        return match find_location(&head.headers) {
            Some(i) => {
                assert(header_views(head.headers@)[i as int].1 == head.headers@[i as int].1@);
                match text::decode(head.headers[i].1.as_slice()) {
                    Ok(to) => Ok(Outcome::Redirect(to)),
                    Err(e) => Err("non-UTF-8 Location header: ".to_owned().concat(e.as_str())),
                }
            },
            None => {
                let n = number::to_decimal(status as u64);
                Err(
                    "HTTP ".to_owned().concat(n.as_str()).concat(
                        " redirect without Location header",
                    ),
                )
            },
        };
    }
    if !(200 <= status && status < 300) {
        let n = number::to_decimal(status as u64);
        return Err("HTTP ".to_owned().concat(n.as_str()));
    }
    let n: usize = buf.len();
    let body = text::slice_of(buf, head.len, n);
    assert(body@ =~= buf@.skip(head.len as int));
    Ok(Outcome::Body(body))
}

/// What an answer comes to.
pub fn parse_response(buf: &Vec<u8>) -> (r: Result<Outcome, String>)
    ensures
        outcome_ok(r, head_of(buf@), buf@),
{
    let head = read_head(buf.as_slice());
    outcome_of(&head, buf)
}

/// How often a client is sent on.
pub const MAX_REDIRECTS: u8 = 5;

/// A fetch that is under way: where it started, where it is, and how often it was
/// sent on.
#[derive(Clone, Debug)]
pub struct Fetch {
    pub start: String,
    pub current: UrlParts,
    pub redirects: u8,
}

/// What to do next.
#[derive(Debug)]
pub enum FetchStep {
    /// Send the request for where the fetch is now.
    Ask(Fetch),
    Done(Vec<u8>),
    Failed(String),
}

/// Starts a fetch.
pub fn start_fetch(url: &str) -> (r: Result<Fetch, String>)
    ensures
        (match (r, url_parsed(url@)) {
            (Ok(f), Ok(p)) => f.start@ == url@ && parts_view(f.current) == p && f.redirects == 0,
            (Err(m), Err(e)) => m@ == "invalid URL '"@ + url@ + "': "@ + e,
            _ => false,
        }),
{
    fetch_at(url, parse_url(url))
}

/// A fetch that starts at an address, given what was read of it.
pub fn fetch_at(url: &str, parsed: Result<UrlParts, String>) -> (r: Result<Fetch, String>)
    ensures
        (match (r, parsed) {
            (Ok(f), Ok(p)) => f.start@ == url@ && f.current == p && f.redirects == 0,
            (Err(m), Err(e)) => m@ == "invalid URL '"@ + url@ + "': "@ + e@,
            _ => false,
        }),
{
    match parsed {
        Ok(u) => Ok(Fetch { start: url.to_owned(), current: u, redirects: 0 }),
        Err(e) => Err("invalid URL '".to_owned().concat(url).concat("': ").concat(e.as_str())),
    }
}

/// Whether a step is the right one after an answer: a body ends the fetch, and a
/// fetch is sent on at most five times.
pub open spec fn fetch_ok(s: FetchStep, f: Fetch, o: Result<Outcome, String>) -> bool {
    match o {
        Ok(Outcome::Body(b)) => s matches FetchStep::Done(d) && d@ == b@,
        Ok(Outcome::Redirect(to)) => match url_joined(f.current.text@, to@) {
            Ok(p) => if f.redirects < MAX_REDIRECTS {
                s matches FetchStep::Ask(g) && g.start@ == f.start@ && parts_view(g.current) == p
                    && g.redirects == f.redirects + 1
            } else {
                s matches FetchStep::Failed(m) && m@ == "too many redirects (> 5) starting from "@
                    + f.start@
            },
            Err(e) => s matches FetchStep::Failed(m) && m@ == "bad redirect Location '"@ + to@
                + "': "@ + e,
        },
        Err(e) => s matches FetchStep::Failed(m) && m@ == e@,
    }
}

/// The step after an answer.
pub fn fetch_via_proxy(f: Fetch, o: Result<Outcome, String>) -> (s: FetchStep)
    ensures
        fetch_ok(s, f, o),
{
    match o {
        Ok(Outcome::Body(b)) => FetchStep::Done(b),
        Ok(Outcome::Redirect(to)) => {
            let joined = join_url(f.current.text.as_str(), to.as_str());
            sent_on(f, to.as_str(), joined)
        },
        Err(e) => FetchStep::Failed(e),
    }
}

/// The step after an answer that is elsewhere, given what was read of where.
pub fn sent_on(f: Fetch, to: &str, joined: Result<UrlParts, String>) -> (s: FetchStep)
    ensures
        (match joined {
            Ok(p) => if f.redirects < MAX_REDIRECTS {
                s matches FetchStep::Ask(g) && g.start@ == f.start@ && g.current == p
                    && g.redirects == f.redirects + 1
            } else {
                s matches FetchStep::Failed(m) && m@ == "too many redirects (> 5) starting from "@
                    + f.start@
            },
            Err(e) => s matches FetchStep::Failed(m) && m@ == "bad redirect Location '"@ + to@
                + "': "@ + e@,
        }),
{
    match joined {
        Ok(u) => if f.redirects < MAX_REDIRECTS {
            FetchStep::Ask(Fetch { start: f.start, current: u, redirects: f.redirects + 1 })
        } else {
            FetchStep::Failed(
                "too many redirects (> 5) starting from ".to_owned().concat(f.start.as_str()),
            )
        },
        Err(e) => FetchStep::Failed(
            "bad redirect Location '".to_owned().concat(to).concat("': ").concat(e.as_str()),
        ),
    }
}

/// A fetch is sent on only while it was sent on less than five times, so that it ends.
pub proof fn law_fetches_end(s: FetchStep, f: Fetch, o: Result<Outcome, String>)
    requires
        fetch_ok(s, f, o),
    ensures
        s matches FetchStep::Ask(g) ==> f.redirects < g.redirects <= MAX_REDIRECTS && g.start@
            == f.start@,
{
}

} // verus!
