//! Connections, traffic and memory.

use crate::api::reply;
use crate::api::reply::Reply;
use crate::number;
use crate::text;
use vstd::prelude::*;
use vstd::string::*;

verus! {

/// How many milliseconds lie between two reports on connections, where a request does
/// not say.
pub const USUAL_INTERVAL: u64 = 1000;

/// How many milliseconds lie between two reports on connections.
pub open spec fn interval(raw: Option<Seq<char>>) -> Option<nat> {
    match raw {
        Some(s) => match number::unsigned(s, u64::MAX as nat) {
            Some(n) => if n == 0 {
                None
            } else {
                Some(n)
            },
            None => None,
        },
        None => Some(USUAL_INTERVAL as nat),
    }
}

/// Reads how often to report on connections.
pub fn parse_interval(raw: &Option<String>) -> (r: Result<u64, Reply>)
    ensures
        (match (r, interval(text::opt_view(*raw))) {
            (Ok(n), Some(m)) => n == m,
            (Err(e), None) => e@ == reply::told(400, "Body invalid"@),
            _ => false,
        }),
{
    match raw {
        Some(s) => {
            if let Some(n) = number::parse_unsigned(s.as_str(), u64::MAX) {
                if n != 0 {
                    return Ok(n);
                }
            }
            Err(reply::msg_err(reply::BAD_REQUEST, "Body invalid"))
        },
        None => Ok(USUAL_INTERVAL),
    }
}

/// What `uuid::Uuid::parse_str` makes of a text: the number of the identifier.
pub uninterp spec fn uuid_of(s: Seq<char>) -> Option<u128>;

/// `uuid::Uuid::parse_str`: the identifier that a text writes, or nothing where it
/// writes none.
#[verifier::external_body]
pub(crate) fn parse_uuid(s: &str) -> (r: Option<u128>)
    ensures
        r == uuid_of(s@),
{
    uuid::Uuid::parse_str(s).ok().map(|u| u.as_u128())
}

/// Finds the connection that a request wants closed.
pub fn close_connection(id: &str) -> (r: Result<u128, Reply>)
    ensures
        (match uuid_of(id@) {
            Some(u) => r == Ok::<u128, Reply>(u),
            None => r matches Err(e) && e@ == reply::bare(400),
        }),
{
    connection_named(parse_uuid(id))
}

/// The connection that an identifier stands for.
pub fn connection_named(id: Option<u128>) -> (r: Result<u128, Reply>)
    ensures
        (match id {
            Some(u) => r == Ok::<u128, Reply>(u),
            None => r matches Err(e) && e@ == reply::bare(400),
        }),
{
    match id {
        Some(u) => Ok(u),
        None => Err(reply::only(reply::BAD_REQUEST)),
    }
}

/// A report on traffic.
pub open spec fn traffic_frame(up: i64, down: i64, up_total: i64, down_total: i64) -> Seq<char> {
    "{\"up\":"@ + number::signed(up as int) + ",\"down\":"@ + number::signed(down as int)
        + ",\"upTotal\":"@ + number::signed(up_total as int) + ",\"downTotal\":"@ + number::signed(
        down_total as int,
    ) + "}"@
}

/// Writes a report on traffic.
pub fn traffic_json(up: i64, down: i64, up_total: i64, down_total: i64) -> (s: String)
    ensures
        s@ == traffic_frame(up, down, up_total, down_total),
{
    "{\"up\":".to_owned().concat(number::to_signed(up).as_str()).concat(",\"down\":").concat(
        number::to_signed(down).as_str(),
    ).concat(",\"upTotal\":").concat(number::to_signed(up_total).as_str()).concat(
        ",\"downTotal\":",
    ).concat(number::to_signed(down_total).as_str()).concat("}")
}

/// A report on memory.
pub open spec fn memory_text(inuse: u64, oslimit: u64) -> Seq<char> {
    "{\"inuse\":"@ + number::decimal(inuse as nat) + ",\"oslimit\":"@ + number::decimal(
        oslimit as nat,
    ) + "}"@
}

/// Writes a report on memory.
pub fn memory_frame(inuse: u64, oslimit: u64) -> (s: String)
    ensures
        s@ == memory_text(inuse, oslimit),
{
    "{\"inuse\":".to_owned().concat(number::to_decimal(inuse).as_str()).concat(
        ",\"oslimit\":",
    ).concat(number::to_decimal(oslimit).as_str()).concat("}")
}

/// How much memory the program may use: what the file of its control group says, or
/// else the limit on its address space. Zero means that there is no limit.
pub open spec fn memory_limit(group: Option<Seq<char>>, address_space: Option<u64>) -> nat {
    match group {
        Some(s) => match number::unsigned(text::trimmed(s), u64::MAX as nat) {
            Some(n) => n,
            None => space_limit(address_space),
        },
        None => space_limit(address_space),
    }
}

/// The limit on the address space, or zero.
pub open spec fn space_limit(address_space: Option<u64>) -> nat {
    match address_space {
        Some(n) => n as nat,
        None => 0,
    }
}

/// Finds how much memory the program may use.
pub fn read_os_memory_limit(group: &Option<String>, address_space: Option<u64>) -> (n: u64)
    ensures
        n == memory_limit(text::opt_view(*group), address_space),
{
    if let Some(s) = group {
        if let Some(n) = number::parse_unsigned(text::trim(s.as_str()).as_str(), u64::MAX) {
            return n;
        }
    }
    match address_space {
        Some(n) => n,
        None => 0,
    }
}

/// The one task that samples memory for all clients.
#[derive(Clone, Copy, Debug, PartialEq, Eq, Structural)]
pub struct MemoryFeed {
    pub sampling: bool,
}

/// What the task does at a tick.
#[derive(Clone, Copy, Debug, PartialEq, Eq, Structural)]
pub enum FeedStep {
    /// Sample, and send the report to every client.
    Sample,
    /// Nobody listens any more: the task ends.
    Stop,
}

impl MemoryFeed {
    /// A feed that nobody listens to.
    pub fn new() -> (f: MemoryFeed)
        ensures
            !f.sampling,
    {
        MemoryFeed { sampling: false }
    }

    /// A client joins. Tells whether the task has to be started: it runs once.
    pub fn subscribe_memory_feed(&mut self) -> (start: bool)
        ensures
            start == !old(self).sampling,
            final(self).sampling,
    {
        let start = !self.sampling;
        self.sampling = true;
        start
    }

    /// The task wakes up, with so many clients listening.
    pub fn tick(&mut self, listeners: usize) -> (step: FeedStep)
        ensures
            step == (if listeners == 0 {
                FeedStep::Stop
            } else {
                FeedStep::Sample
            }),
            final(self).sampling == (old(self).sampling && listeners > 0),
    {
        if listeners == 0 {
            self.sampling = false;
            FeedStep::Stop
        } else {
            FeedStep::Sample
        }
    }
}

} // verus!
