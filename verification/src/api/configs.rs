//! Reading and changing the configuration as it runs.

use crate::api::reply;
use crate::api::reply::Reply;
use crate::codec;
use crate::config::assemble;
use crate::config::assemble::TunnelMode;
use crate::config::raw::RawConfig;
use crate::text;
use vstd::prelude::*;
use vstd::string::*;
use vstd::utf8::*;

verus! {

/// What is told of the configuration.
#[derive(Clone, Debug)]
pub struct ConfigResponse {
    pub mode: String,
    pub log_level: String,
    pub mixed_port: Option<u16>,
    pub socks_port: Option<u16>,
    pub http_port: Option<u16>,
    pub redir_port: u16,
    pub tproxy_port: u16,
    pub external_controller: Option<String>,
    pub allow_lan: bool,
    pub bind_address: String,
    pub ipv6: bool,
}

/// Whether what is told of a configuration is so.
pub open spec fn config_told(c: ConfigResponse, raw: RawConfig, mode: TunnelMode) -> bool {
    &&& c.mode@ == assemble::mode_name(mode)
    &&& c.log_level@ == assemble::set_or(raw.log_level, "info"@)
    &&& c.mixed_port == raw.mixed_port
    &&& c.socks_port == raw.socks_port
    &&& c.http_port == raw.port
    &&& c.redir_port == 0
    &&& c.tproxy_port == (match raw.tproxy_port {
        Some(p) => p,
        None => 0,
    })
    &&& text::opt_view(c.external_controller) == text::opt_view(raw.external_controller)
    &&& c.allow_lan == (raw.allow_lan == Some(true))
    &&& c.bind_address@ == assemble::set_or(raw.bind_address, "0.0.0.0"@)
    &&& c.ipv6 == (raw.ipv6 == Some(true))
}

fn text_or(o: &Option<String>, usual: &str) -> (s: String)
    ensures
        s@ == assemble::set_or(*o, usual@),
{
    match o {
        Some(s) => s.clone(),
        None => usual.to_owned(),
    }
}

/// Tells of the configuration and of the mode that is in force.
pub fn get_configs(raw: &RawConfig, mode: TunnelMode) -> (c: ConfigResponse)
    ensures
        config_told(c, *raw, mode),
{
    ConfigResponse {
        mode: mode.name(),
        log_level: text_or(&raw.log_level, "info"),
        mixed_port: raw.mixed_port,
        socks_port: raw.socks_port,
        http_port: raw.port,
        redir_port: 0,
        tproxy_port: match raw.tproxy_port {
            Some(p) => p,
            None => 0,
        },
        external_controller: match &raw.external_controller {
            Some(s) => Some(s.clone()),
            None => None,
        },
        allow_lan: match raw.allow_lan {
            Some(b) => b,
            None => false,
        },
        bind_address: text_or(&raw.bind_address, "0.0.0.0"),
        ipv6: match raw.ipv6 {
            Some(b) => b,
            None => false,
        },
    }
}

/// Whether a text names a level of the log, in letters of any case.
pub open spec fn names_level(s: Seq<char>) -> bool {
    let l = text::ascii_lower(s);
    ||| l == "debug"@
    ||| l == "info"@
    ||| l == "warning"@
    ||| l == "warn"@
    ||| l == "error"@
    ||| l == "silent"@
}

/// Tells whether a text names a level of the log.
pub fn known_level(s: &str) -> (r: bool)
    ensures
        r == names_level(s@),
{
    let l = text::to_ascii_lower(s);
    let l = l.as_str();
    text::same(l, "debug") || text::same(l, "info") || text::same(l, "warning") || text::same(
        l,
        "warn",
    ) || text::same(l, "error") || text::same(l, "silent")
}

/// A change of the running configuration.
#[derive(Clone, Debug)]
pub struct Update {
    pub mode: Option<TunnelMode>,
    pub log_level: Option<String>,
}

/// Whether a request for a change can be understood.
pub open spec fn understood(mode: Option<Seq<char>>, level: Option<Seq<char>>) -> bool {
    &&& mode matches Some(m) ==> assemble::mode_named(m) is Some
    &&& level matches Some(l) ==> names_level(l)
}

/// Checks a request for a change, the whole of it before any of it is done.
pub fn update_configs(mode: Option<String>, log_level: Option<String>) -> (r: Result<
    Update,
    Reply,
>)
    ensures
        r is Ok <==> understood(text::opt_view(mode), text::opt_view(log_level)),
        (match r {
            Ok(u) => {
                &&& u.mode == (match mode {
                    Some(m) => assemble::mode_named(m@),
                    None => None,
                })
                &&& u.log_level == log_level
            },
            Err(e) => e@ == reply::told(400, "Body invalid"@),
        }),
{
    let mode = match &mode {
        Some(m) => match TunnelMode::parse(m.as_str()) {
            Some(x) => Some(x),
            None => return Err(reply::msg_err(reply::BAD_REQUEST, "Body invalid")),
        },
        None => None,
    };
    if let Some(l) = &log_level {
        if !known_level(l.as_str()) {
            return Err(reply::msg_err(reply::BAD_REQUEST, "Body invalid"));
        }
    }
    Ok(Update { mode, log_level })
}

/// Whether the log was asked to change and did not.
pub open spec fn log_failed(u: Update, reloaded: Result<(), String>) -> bool {
    u.log_level is Some && reloaded is Err
}

/// What an update leaves of the configuration, and how it is answered.
pub open spec fn updated(
    before: RawConfig,
    u: Update,
    reloaded: Result<(), String>,
    after: RawConfig,
    r: Reply,
) -> bool {
    &&& log_failed(u, reloaded) ==> after == before
    &&& !log_failed(u, reloaded) ==> {
        &&& text::opt_view(after.mode) == (match u.mode {
            Some(m) => Some(assemble::mode_name(m)),
            None => text::opt_view(before.mode),
        })
        &&& after.log_level == (match u.log_level {
            Some(_) => u.log_level,
            None => before.log_level,
        })
        &&& after == (RawConfig {
            mode: after.mode,
            log_level: after.log_level,
            ..before
        })
    }
    &&& r@ == (match (u.log_level, reloaded) {
        (Some(_), Err(e)) => reply::told(500, e@),
        _ => reply::bare(204),
    })
}

/// Writes a change down: the whole of it, or nothing where the log did not take its
/// level. That is told of, and what the log said.
pub fn apply_update(raw: &mut RawConfig, u: Update, reloaded: Result<(), String>) -> (r: Reply)
    ensures
        updated(*old(raw), u, reloaded, *final(raw), r),
{
    if let Some(l) = u.log_level {
        if let Err(e) = reloaded {
            return reply::msg_err(reply::INTERNAL_SERVER_ERROR, e.as_str());
        }
        raw.log_level = Some(l);
    }
    if let Some(m) = u.mode {
        raw.mode = Some(m.name());
    }
    reply::only(reply::NO_CONTENT)
}

/// What an update leaves of the configuration and of the mode, and how it is answered.
pub open spec fn carried_out(
    before: RawConfig,
    mode_before: TunnelMode,
    u: Update,
    reloaded: Result<(), String>,
    after: RawConfig,
    mode_after: TunnelMode,
    r: Reply,
) -> bool {
    &&& log_failed(u, reloaded) ==> after == before && mode_after == mode_before
    &&& !log_failed(u, reloaded) ==> {
        &&& mode_after == (match u.mode {
            Some(m) => m,
            None => mode_before,
        })
        &&& text::opt_view(after.mode) == (match u.mode {
            Some(m) => Some(assemble::mode_name(m)),
            None => text::opt_view(before.mode),
        })
        &&& after.log_level == (match u.log_level {
            Some(_) => u.log_level,
            None => before.log_level,
        })
        &&& after == (RawConfig {
            mode: after.mode,
            log_level: after.log_level,
            ..before
        })
    }
    &&& r@ == (match (u.log_level, reloaded) {
        (Some(_), Err(e)) => reply::told(500, e@),
        _ => reply::bare(204),
    })
    &&& log_failed(u, reloaded) <==> r@.status != 204
}

/// Carries a change out, in the configuration and in the mode that is in force: in
/// both of them, or in neither where the answer is not 204.
pub fn carry_out(
    raw: &mut RawConfig,
    mode: &mut TunnelMode,
    u: Update,
    reloaded: Result<(), String>,
) -> (r: Reply)
    ensures
        carried_out(*old(raw), *old(mode), u, reloaded, *final(raw), *final(mode), r),
{
    let wanted = u.mode;
    let failed = u.log_level.is_some() && reloaded.is_err();
    let r = apply_update(raw, u, reloaded);
    if !failed {
        if let Some(m) = wanted {
            *mode = m;
        }
    }
    r
}

/// Where a new configuration is written.
#[derive(Clone, Debug)]
pub enum NewConfig {
    /// In a file.
    File(String),
    /// In a text.
    Text(String),
}

/// Whether bytes that a payload encodes are the encoding of a text.
pub open spec fn payload_text(payload: Seq<char>) -> Result<Seq<char>, Seq<char>> {
    match codec::base64_decoded(payload) {
        Ok(b) => if valid_utf8(b) {
            Ok(decode_utf8(b))
        } else {
            Err("payload is not valid UTF-8"@)
        },
        Err(_) => Err("payload is not valid base64"@),
    }
}

/// Finds where a new configuration is written. A path wins over a payload, which is
/// Base64.
pub fn put_configs(path: Option<String>, payload: Option<String>) -> (r: Result<NewConfig, Reply>)
    ensures
        (match (path, payload) {
            (Some(p), _) => r matches Ok(NewConfig::File(f)) && f == p,
            (None, Some(b)) => match payload_text(b@) {
                Ok(t) => r matches Ok(NewConfig::Text(s)) && s@ == t,
                Err(m) => r matches Err(e) && e@ == reply::told(400, m),
            },
            (None, None) => r matches Err(e) && e@ == reply::told(
                400,
                "request body must contain 'path' or 'payload'"@,
            ),
        }),
{
    match (path, payload) {
        (Some(p), _) => Ok(NewConfig::File(p)),
        (None, Some(b)) => payload_config(codec::base64_decode(b.as_str())),
        (None, None) => Err(
            reply::msg_err(reply::BAD_REQUEST, "request body must contain 'path' or 'payload'"),
        ),
    }
}

/// The text of a new configuration, given what its payload decodes to.
pub fn payload_config(decoded: Result<Vec<u8>, String>) -> (r: Result<NewConfig, Reply>)
    ensures
        (match decoded {
            Ok(b) => if valid_utf8(b@) {
                r matches Ok(NewConfig::Text(s)) && s@ == decode_utf8(b@)
            } else {
                r matches Err(e) && e@ == reply::told(400, "payload is not valid UTF-8"@)
            },
            Err(_) => r matches Err(e) && e@ == reply::told(400, "payload is not valid base64"@),
        }),
{
    match decoded {
        Ok(bytes) => match text::decode(bytes.as_slice()) {
            Ok(s) => Ok(NewConfig::Text(s)),
            Err(_) => Err(reply::msg_err(reply::BAD_REQUEST, "payload is not valid UTF-8")),
        },
        Err(_) => Err(reply::msg_err(reply::BAD_REQUEST, "payload is not valid base64")),
    }
}

/// Whether a new configuration is to be taken although it does not hold together.
pub fn forced(force: Option<&str>) -> (r: bool)
    ensures
        r == (force matches Some(f) && f@ == "true"@),
{
    match force {
        Some(f) => text::same(f, "true"),
        None => false,
    }
}

/// What becomes of the file of a new configuration.
pub fn after_reading(read: Result<String, String>) -> (r: Result<String, Reply>)
    ensures
        (match (read, r) {
            (Ok(t), Ok(s)) => s == t,
            (Err(e), Err(told)) => told@ == reply::told(400, e@),
            _ => false,
        }),
{
    match read {
        Ok(t) => Ok(t),
        Err(e) => Err(reply::msg_err(reply::BAD_REQUEST, e.as_str())),
    }
}

/// What becomes of the text of a new configuration. One that cannot be parsed is
/// refused, forced or not.
pub fn after_parsing(parsed: Result<RawConfig, String>) -> (r: Result<RawConfig, Reply>)
    ensures
        (match (parsed, r) {
            (Ok(c), Ok(d)) => d == c,
            (Err(e), Err(told)) => told@ == reply::told(400, "config parse error: "@ + e@),
            _ => false,
        }),
{
    match parsed {
        Ok(c) => Ok(c),
        Err(e) => Err(
            reply::msg_err(
                reply::BAD_REQUEST,
                "config parse error: ".to_owned().concat(e.as_str()).as_str(),
            ),
        ),
    }
}

/// How a new configuration is taken over.
#[derive(Clone, Debug)]
pub struct Reload {
    /// Whether its proxies and rules are taken, or none at all.
    pub take_built: bool,
    /// The mode to change to.
    pub mode: Option<TunnelMode>,
}

/// What becomes of a new configuration once its proxies and rules were built. One
/// that could not be is refused, unless it is forced: then nothing is taken of it
/// but its mode. A mode that is not known is left out.
pub fn after_rebuilding(raw: &RawConfig, built: Result<(), String>, force: bool) -> (r: Result<
    Reload,
    Reply,
>)
    ensures
        (match r {
            Ok(l) => {
                &&& built is Ok || force
                &&& l.take_built == built is Ok
                &&& l.mode == (match raw.mode {
                    Some(m) => assemble::mode_named(m@),
                    None => None,
                })
            },
            Err(told) => !force && built is Err && told@ == reply::told(
                400,
                "config validation error: "@ + built->Err_0@,
            ),
        }),
{
    let take_built = match built {
        Ok(_) => true,
        Err(e) => {
            if !force {
                return Err(
                    reply::msg_err(
                        reply::BAD_REQUEST,
                        "config validation error: ".to_owned().concat(e.as_str()).as_str(),
                    ),
                );
            }
            false
        },
    };
    let mode = match &raw.mode {
        Some(m) => TunnelMode::parse(m.as_str()),
        None => None,
    };
    Ok(Reload { take_built, mode })
}

/// What becomes of a part of what is in force.
#[derive(Clone, Copy, Debug, PartialEq, Eq, Structural)]
pub enum Taken {
    /// It stays as it is.
    Untouched,
    /// What was built takes its place.
    Built,
    /// Nothing takes its place.
    Nothing,
}

/// What taking a new configuration over changes of what is in force.
pub struct Takeover {
    /// Whether every connection is closed.
    pub close_connections: bool,
    pub proxies: Taken,
    pub rules: Taken,
    /// The mode to change to.
    pub mode: Option<TunnelMode>,
    /// The configuration to remember.
    pub raw: Option<RawConfig>,
}

/// What is in force while the program runs.
pub struct InForce<P, R> {
    /// The connections that are open, by their numbers.
    pub connections: Set<u128>,
    pub proxies: P,
    pub rules: R,
    pub mode: TunnelMode,
    pub raw: RawConfig,
}

/// What a part becomes.
pub open spec fn part_after<T>(t: Taken, before: T, built: T, nothing: T) -> T {
    match t {
        Taken::Untouched => before,
        Taken::Built => built,
        Taken::Nothing => nothing,
    }
}

/// What is in force after a takeover, given what was built and what stands for no
/// proxies and no rules.
pub open spec fn in_force_after<P, R>(
    t: Takeover,
    before: InForce<P, R>,
    built: (P, R),
    nothing: (P, R),
) -> InForce<P, R> {
    InForce {
        connections: if t.close_connections {
            Set::empty()
        } else {
            before.connections
        },
        proxies: part_after(t.proxies, before.proxies, built.0, nothing.0),
        rules: part_after(t.rules, before.rules, built.1, nothing.1),
        mode: match t.mode {
            Some(m) => m,
            None => before.mode,
        },
        raw: match t.raw {
            Some(c) => c,
            None => before.raw,
        },
    }
}

/// Whether a takeover is what a request to take a new configuration leads to: nothing
/// where it was refused, at whatever point.
pub open spec fn takeover_of(t: Takeover, outcome: Result<(RawConfig, Reload), Reply>) -> bool {
    match outcome {
        Err(_) => {
            &&& !t.close_connections
            &&& t.proxies == Taken::Untouched
            &&& t.rules == Taken::Untouched
            &&& t.mode is None
            &&& t.raw is None
        },
        Ok((raw, l)) => {
            let taken = if l.take_built {
                Taken::Built
            } else {
                Taken::Nothing
            };
            &&& t.close_connections
            &&& t.proxies == taken
            &&& t.rules == taken
            &&& t.mode == l.mode
            &&& t.raw == Some(raw)
        },
    }
}

/// Plans what a request to take a new configuration changes, and answers it, given
/// the refusal of the first step that refused it, or the configuration and how it is
/// taken over.
pub fn take_over(outcome: Result<(RawConfig, Reload), Reply>) -> (r: (Reply, Takeover))
    ensures
        takeover_of(r.1, outcome),
        (match outcome {
            Ok(_) => r.0@ == reply::bare(204),
            Err(e) => r.0 == e,
        }),
{
    match outcome {
        Err(e) => (
            e,
            Takeover {
                close_connections: false,
                proxies: Taken::Untouched,
                rules: Taken::Untouched,
                mode: None,
                raw: None,
            },
        ),
        Ok((raw, l)) => {
            let taken = if l.take_built {
                Taken::Built
            } else {
                Taken::Nothing
            };
            (
                reply::only(reply::NO_CONTENT),
                Takeover {
                    close_connections: true,
                    proxies: taken,
                    rules: taken,
                    mode: l.mode,
                    raw: Some(raw),
                },
            )
        },
    }
}

/// Why a request to take a new configuration is refused: neither a path nor a payload is
/// given, the file cannot be read, the payload is no text in Base64, the text is no
/// configuration, forced or not, or its proxies and rules cannot be built and it is not
/// forced.
pub open spec fn put_refusal(
    path: Option<Seq<char>>,
    payload: Option<Seq<char>>,
    read: Result<String, String>,
    parsed: Result<RawConfig, String>,
    built: Result<(), String>,
    force: bool,
) -> Option<Seq<char>> {
    let unread = match (path, payload) {
        (Some(_), _) => match read {
            Ok(_) => None,
            Err(e) => Some(e@),
        },
        (None, Some(b)) => match payload_text(b) {
            Ok(_) => None,
            Err(m) => Some(m),
        },
        (None, None) => Some("request body must contain 'path' or 'payload'"@),
    };
    match (unread, parsed, built) {
        (Some(m), _, _) => Some(m),
        (None, Err(e), _) => Some("config parse error: "@ + e@),
        (None, Ok(_), Err(e)) => if force {
            None
        } else {
            Some("config validation error: "@ + e@)
        },
        (None, Ok(_), Ok(_)) => None,
    }
}

/// Answers a request to take a new configuration and plans what it changes, given what
/// came of reading the file, of parsing the text and of building the proxies and rules.
/// What came of a step is only looked at where the steps before it did not fail, and what
/// came of reading only where a path is given.
pub fn put_outcome(
    path: Option<String>,
    payload: Option<String>,
    read: Result<String, String>,
    parsed: Result<RawConfig, String>,
    built: Result<(), String>,
    force: bool,
) -> (r: (Reply, Takeover))
    ensures
        (match put_refusal(
            text::opt_view(path),
            text::opt_view(payload),
            read,
            parsed,
            built,
            force,
        ) {
            Some(m) => {
                &&& r.0@ == reply::told(400, m)
                &&& !r.1.close_connections
                &&& r.1.proxies == Taken::Untouched
                &&& r.1.rules == Taken::Untouched
                &&& r.1.mode is None
                &&& r.1.raw is None
            },
            None => {
                let taken = if built is Ok {
                    Taken::Built
                } else {
                    Taken::Nothing
                };
                &&& r.0@ == reply::bare(204)
                &&& r.1.close_connections
                &&& r.1.proxies == taken
                &&& r.1.rules == taken
                &&& r.1.mode == (match parsed->Ok_0.mode {
                    Some(m) => assemble::mode_named(m@),
                    None => None,
                })
                &&& r.1.raw == Some(parsed->Ok_0)
            },
        }),
{
    let refused = match put_configs(path, payload) {
        Ok(NewConfig::File(_)) => match after_reading(read) {
            Ok(_) => None,
            Err(e) => Some(e),
        },
        Ok(NewConfig::Text(_)) => None,
        Err(e) => Some(e),
    };
    let outcome = match refused {
        Some(e) => Err(e),
        None => match after_parsing(parsed) {
            Ok(raw) => match after_rebuilding(&raw, built, force) {
                Ok(l) => Ok((raw, l)),
                Err(e) => Err(e),
            },
            Err(e) => Err(e),
        },
    };
    take_over(outcome)
}

/// A refused configuration changes nothing of what is in force. One that is taken
/// closes every connection and replaces the proxies, the rules and the configuration,
/// by none at all where they could not be built; its mode is taken where it has one.
pub proof fn law_taken_wholly_or_not_at_all<P, R>(
    t: Takeover,
    outcome: Result<(RawConfig, Reload), Reply>,
    before: InForce<P, R>,
    built: (P, R),
    nothing: (P, R),
)
    requires
        takeover_of(t, outcome),
    ensures
        ({
            let after = in_force_after(t, before, built, nothing);
            match outcome {
                Err(_) => after == before,
                Ok((raw, l)) => {
                    &&& after.connections == Set::<u128>::empty()
                    &&& (after.proxies, after.rules) == (if l.take_built {
                        built
                    } else {
                        nothing
                    })
                    &&& after.mode == (match l.mode {
                        Some(m) => m,
                        None => before.mode,
                    })
                    &&& after.raw == raw
                },
            }
        }),
{
}

} // verus!
