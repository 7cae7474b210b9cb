//! The log, as clients read it.

use crate::api::configs;
use crate::api::reply;
use crate::api::reply::Reply;
use crate::number;
use crate::text;
use std::cmp::Ordering;
use vstd::prelude::*;
use vstd::std_specs::cmp::PartialOrdSpecImpl;
use vstd::string::*;

verus! {

/// How grave a message is.
#[derive(Clone, Copy, Debug, PartialEq, Eq, Structural)]
pub enum LogLevel {
    Debug,
    Info,
    Warning,
    Error,
    Silent,
}

/// The place of a level, from the least grave on.
pub open spec fn gravity(l: LogLevel) -> u8 {
    match l {
        LogLevel::Debug => 0,
        LogLevel::Info => 1,
        LogLevel::Warning => 2,
        LogLevel::Error => 3,
        LogLevel::Silent => 4,
    }
}

/// The name of a level.
pub open spec fn level_name(l: LogLevel) -> Seq<char> {
    match l {
        LogLevel::Debug => "debug"@,
        LogLevel::Info => "info"@,
        LogLevel::Warning => "warning"@,
        LogLevel::Error => "error"@,
        LogLevel::Silent => "silent"@,
    }
}

impl LogLevel {
    /// The place of the level.
    pub fn rank(&self) -> (n: u8)
        ensures
            n == gravity(*self),
    {
        match self {
            LogLevel::Debug => 0,
            LogLevel::Info => 1,
            LogLevel::Warning => 2,
            LogLevel::Error => 3,
            LogLevel::Silent => 4,
        }
    }

    /// The name of the level.
    pub fn as_str(&self) -> (s: &'static str)
        ensures
            s@ == level_name(*self),
    {
        match self {
            LogLevel::Debug => "debug",
            LogLevel::Info => "info",
            LogLevel::Warning => "warning",
            LogLevel::Error => "error",
            LogLevel::Silent => "silent",
        }
    }
}

impl PartialOrd for LogLevel {
    fn partial_cmp(&self, other: &LogLevel) -> (r: Option<Ordering>) {
        let a: u8 = self.rank();
        let b: u8 = other.rank();
        if a < b {
            Some(Ordering::Less)
        } else if a == b {
            Some(Ordering::Equal)
        } else {
            Some(Ordering::Greater)
        }
    }
}

impl PartialOrdSpecImpl for LogLevel {
    open spec fn obeys_partial_cmp_spec() -> bool {
        true
    }

    open spec fn partial_cmp_spec(&self, other: &LogLevel) -> Option<Ordering> {
        if gravity(*self) < gravity(*other) {
            Some(Ordering::Less)
        } else if gravity(*self) == gravity(*other) {
            Some(Ordering::Equal)
        } else {
            Some(Ordering::Greater)
        }
    }
}

/// The level that a text names, in letters of any case.
pub open spec fn level_named(s: Seq<char>) -> Option<LogLevel> {
    let l = text::ascii_lower(s);
    if l == "debug"@ {
        Some(LogLevel::Debug)
    } else if l == "info"@ {
        Some(LogLevel::Info)
    } else if l == "warning"@ || l == "warn"@ {
        Some(LogLevel::Warning)
    } else if l == "error"@ {
        Some(LogLevel::Error)
    } else if l == "silent"@ {
        Some(LogLevel::Silent)
    } else {
        None
    }
}

/// The least grave level that a client wants to read: the usual one is `info`.
pub fn parse_requested_log_level(value: Option<&str>) -> (r: Result<LogLevel, Reply>)
    ensures
        (match (r, match value {
            Some(v) => level_named(v@),
            None => Some(LogLevel::Info),
        }) {
            (Ok(l), Some(m)) => l == m,
            (Err(e), None) => e@ == reply::told(400, "Body invalid"@),
            _ => false,
        }),
{
    let v = match value {
        Some(v) => v,
        None => return Ok(LogLevel::Info),
    };
    let lower = text::to_ascii_lower(v);
    let l = lower.as_str();
    if text::same(l, "debug") {
        Ok(LogLevel::Debug)
    } else if text::same(l, "info") {
        Ok(LogLevel::Info)
    } else if text::same(l, "warning") || text::same(l, "warn") {
        Ok(LogLevel::Warning)
    } else if text::same(l, "error") {
        Ok(LogLevel::Error)
    } else if text::same(l, "silent") {
        Ok(LogLevel::Silent)
    } else {
        Err(reply::msg_err(reply::BAD_REQUEST, "Body invalid"))
    }
}

/// The levels that can be asked for are those that the log can be set to.
pub proof fn law_levels_agree(s: Seq<char>)
    ensures
        level_named(s) is Some == configs::names_level(s),
{
}

/// A message of the log.
#[derive(Clone, Debug)]
pub struct LogMessage {
    pub level: LogLevel,
    pub payload: String,
    /// When it was written, in nanoseconds since 1970 in UTC.
    pub time: i128,
}

/// What `serde_json::to_string` makes of a text: a JSON string.
pub uninterp spec fn json_string(s: Seq<char>) -> Seq<char>;

/// `serde_json::to_string` on a string: it writes the string as JSON, and does not
/// fail.
#[verifier::external_body]
pub(crate) fn to_json(s: &str) -> (r: String)
    ensures
        r@ == json_string(s@),
{
    serde_json::to_string(s).unwrap_or_default()
}

/// What the `time` crate writes for a time in RFC 3339: `Rfc3339` applied to
/// `OffsetDateTime::from_unix_timestamp_nanos`.
pub uninterp spec fn rfc3339_text(nanos: i128) -> Option<Seq<char>>;

/// The year 10000 begins so many seconds after 1970.
pub const END_OF_TIME: i128 = 253402300800;

/// `time::OffsetDateTime::format` with `Rfc3339`, on the time that
/// `from_unix_timestamp_nanos` gives. A time from 1970 until the year 10000 can be
/// written.
#[verifier::external_body]
pub(crate) fn rfc3339(nanos: i128) -> (r: Option<String>)
    ensures
        text::opt_view(r) == rfc3339_text(nanos),
        0 <= nanos < END_OF_TIME * 1_000_000_000 ==> r is Some,
{
    let time = time::OffsetDateTime::from_unix_timestamp_nanos(nanos).ok()?;
    time.format(&time::format_description::well_known::Rfc3339).ok()
}

/// A number below one hundred with two digits.
pub open spec fn two_digits(n: nat) -> Seq<char> {
    seq![number::digit_char(n / 10), number::digit_char(n % 10)]
}

/// The time of day, in seconds after midnight.
pub open spec fn second_of_day(nanos: int) -> int {
    (nanos / 1_000_000_000) % 86400
}

/// The time of day, as a clock shows it.
pub open spec fn clock(nanos: int) -> Seq<char> {
    let s = second_of_day(nanos);
    two_digits((s / 3600) as nat) + ":"@ + two_digits((s / 60 % 60) as nat) + ":"@ + two_digits(
        (s % 60) as nat,
    )
}

fn write_two(n: u64) -> (s: String)
    requires
        n < 100,
    ensures
        s@ == two_digits(n as nat),
{
    let mut s = String::new();
    let tens: u8 = (n / 10) as u8;
    let ones: u8 = (n % 10) as u8;
    s.push((48 + tens) as char);
    s.push((48 + ones) as char);
    assert(s@ =~= two_digits(n as nat));
    s
}

fn floor_seconds(nanos: i128) -> (s: i128)
    ensures
        s == nanos as int / 1_000_000_000,
        nanos >= 0 ==> s >= 0,
{
    if nanos >= 0 {
        nanos / 1_000_000_000
    } else {
        -((-(nanos + 1)) / 1_000_000_000) - 1
    }
}

fn write_clock(nanos: i128) -> (s: String)
    ensures
        s@ == clock(nanos as int),
{
    let seconds: i128 = floor_seconds(nanos);
    let days: i128 = if seconds >= 0 {
        seconds / 86400
    } else {
        -((-(seconds + 1)) / 86400) - 1
    };
    assert(days == seconds as int / 86400);
    let day: u64 = (seconds - days * 86400) as u64;
    assert(day == second_of_day(nanos as int));
    write_two(day / 3600).concat(":").concat(write_two(day / 60 % 60).as_str()).concat(":").concat(
        write_two(day % 60).as_str(),
    )
}

/// A message as a client reads it, given its text as JSON and when it was written.
pub open spec fn plain_frame(l: LogLevel, payload: Seq<char>, time: Seq<char>) -> Seq<char> {
    "{\"payload\":"@ + payload + ",\"time\":\""@ + time + "\",\"type\":\""@ + level_name(l)
        + "\"}"@
}

/// The name of a level in structured messages.
pub open spec fn structured_name(l: LogLevel) -> Seq<char> {
    if l == LogLevel::Warning {
        "warn"@
    } else {
        level_name(l)
    }
}

/// A message as a client reads it that asked for structured ones, given its text as
/// JSON.
pub open spec fn structured_frame(l: LogLevel, payload: Seq<char>, time: int) -> Seq<char> {
    "{\"fields\":[],\"level\":\""@ + structured_name(l) + "\",\"message\":"@ + payload
        + ",\"time\":\""@ + clock(time) + "\"}"@
}

/// A message as a client reads it. A time that cannot be written is left empty.
pub open spec fn frame(m: LogMessage, structured: bool) -> Seq<char> {
    let payload = json_string(m.payload@);
    if structured {
        structured_frame(m.level, payload, m.time as int)
    } else {
        plain_frame(
            m.level,
            payload,
            match rfc3339_text(m.time) {
                Some(t) => t,
                None => Seq::empty(),
            },
        )
    }
}

/// Writes a message as a client reads it, given its text as JSON and when it was
/// written.
pub fn write_plain(level: LogLevel, payload: &str, time: &str) -> (s: String)
    ensures
        s@ == plain_frame(level, payload@, time@),
{
    "{\"payload\":".to_owned().concat(payload).concat(",\"time\":\"").concat(time).concat(
        "\",\"type\":\"",
    ).concat(level.as_str()).concat("\"}")
}

/// Writes a message as a client reads it that asked for structured ones, given its
/// text as JSON.
pub fn write_structured(level: LogLevel, payload: &str, time: i128) -> (s: String)
    ensures
        s@ == structured_frame(level, payload@, time as int),
{
    let name = if level == LogLevel::Warning {
        "warn"
    } else {
        level.as_str()
    };
    "{\"fields\":[],\"level\":\"".to_owned().concat(name).concat("\",\"message\":").concat(
        payload,
    ).concat(",\"time\":\"").concat(write_clock(time).as_str()).concat("\"}")
}

/// Writes a message as a client reads it.
pub fn log_json(m: &LogMessage, structured: bool) -> (s: String)
    ensures
        s@ == frame(*m, structured),
{
    let payload = to_json(m.payload.as_str());
    if structured {
        write_structured(m.level, payload.as_str(), m.time)
    } else {
        let time = match rfc3339(m.time) {
            Some(t) => t,
            None => String::new(),
        };
        write_plain(m.level, payload.as_str(), time.as_str())
    }
}

/// What comes to a client that reads the log.
#[derive(Clone, Debug)]
pub enum LogEvent {
    Message(LogMessage),
    /// The client was too slow, and missed messages.
    Lagged(u64),
    Closed,
}

/// What is done about it.
#[derive(Clone, Debug)]
pub enum LogStep {
    Send(String),
    Skip,
    Stop,
}

/// What a client is told that missed messages.
pub open spec fn lagged_frame(missed: u64) -> Seq<char> {
    "{\"type\":\"lagged\",\"missed\":"@ + number::decimal(missed as nat) + "}"@
}

/// Serves a client that reads the log: it gets the messages that are as grave as it
/// asked for, and it is told how many it missed.
pub fn get_logs(event: &LogEvent, level: LogLevel, structured: bool) -> (step: LogStep)
    ensures
        (match event {
            LogEvent::Message(m) => if gravity(m.level) >= gravity(level) {
                step matches LogStep::Send(s) && s@ == frame(*m, structured)
            } else {
                step is Skip
            },
            LogEvent::Lagged(n) => step matches LogStep::Send(s) && s@ == lagged_frame(*n),
            LogEvent::Closed => step is Stop,
        }),
{
    match event {
        LogEvent::Message(m) => {
            if m.level >= level {
                LogStep::Send(log_json(m, structured))
            } else {
                LogStep::Skip
            }
        },
        LogEvent::Lagged(n) => LogStep::Send(
            "{\"type\":\"lagged\",\"missed\":".to_owned().concat(
                number::to_decimal(*n).as_str(),
            ).concat("}"),
        ),
        LogEvent::Closed => LogStep::Stop,
    }
}

/// When something was last brought up to date, in RFC 3339. Zero means never.
pub open spec fn updated_text(seconds: u64) -> Option<Seq<char>> {
    if seconds == 0 {
        None
    } else {
        rfc3339_text(((seconds as i64) * 1_000_000_000) as i128)
    }
}

/// Writes when something was last brought up to date.
pub fn unix_rfc3339(seconds: u64) -> (r: Option<String>)
    ensures
        text::opt_view(r) == updated_text(seconds),
        0 < seconds < END_OF_TIME ==> r is Some,
{
    if seconds == 0 {
        return None;
    }
    rfc3339((seconds as i64) as i128 * 1_000_000_000)
}

} // verus!
