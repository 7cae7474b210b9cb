//! Which connections are looked into for the name that they are for.

use crate::config::raw::{RawConfig, RawSniffProtocol, RawSniffer};
use crate::number;
use crate::text;
use vstd::prelude::*;
use vstd::string::*;

verus! {

/// A checked `sniffer:` section.
#[derive(Clone, Debug)]
pub struct SnifferConfig {
    pub enable: bool,
    /// How long the first bytes are waited for, in milliseconds.
    pub timeout: u64,
    pub parse_pure_ip: bool,
    pub override_destination: bool,
    /// The ports on which a TLS greeting is looked for.
    pub tls_ports: Vec<u16>,
    /// The ports on which an HTTP request is looked for.
    pub http_ports: Vec<u16>,
    /// Names that are not taken over.
    pub skip_domain: Vec<String>,
    /// Names for which connections to names are looked into too.
    pub force_domain: Vec<String>,
}

/// A [`SnifferConfig`] with its lists as sequences.
pub struct SnifferView {
    pub enable: bool,
    pub timeout: u64,
    pub parse_pure_ip: bool,
    pub override_destination: bool,
    pub tls_ports: Seq<u16>,
    pub http_ports: Seq<u16>,
    pub skip_domain: Seq<Seq<char>>,
    pub force_domain: Seq<Seq<char>>,
}

impl View for SnifferConfig {
    type V = SnifferView;

    open spec fn view(&self) -> SnifferView {
        SnifferView {
            enable: self.enable,
            timeout: self.timeout,
            parse_pure_ip: self.parse_pure_ip,
            override_destination: self.override_destination,
            tls_ports: self.tls_ports@,
            http_ports: self.http_ports@,
            skip_domain: text::views(self.skip_domain@),
            force_domain: text::views(self.force_domain@),
        }
    }
}

/// Settings with which nothing is looked into.
pub open spec fn usual() -> SnifferView {
    SnifferView {
        enable: false,
        timeout: 100,
        parse_pure_ip: true,
        override_destination: false,
        tls_ports: seq![443, 8443],
        http_ports: seq![80, 8080, 8880],
        skip_domain: Seq::empty(),
        force_domain: Seq::empty(),
    }
}

/// Settings with which TLS greetings are looked for on their usual port.
pub open spec fn tls_only() -> SnifferView {
    SnifferView {
        enable: true,
        timeout: 100,
        parse_pure_ip: true,
        override_destination: false,
        tls_ports: seq![443],
        http_ports: Seq::empty(),
        skip_domain: Seq::empty(),
        force_domain: Seq::empty(),
    }
}

impl Default for SnifferConfig {
    /// Nothing is looked into.
    fn default() -> (c: Self)
        ensures
            c@ == usual(),
    {
        let c = SnifferConfig {
            enable: false,
            timeout: 100,
            parse_pure_ip: true,
            override_destination: false,
            tls_ports: vec![443, 8443],
            http_ports: vec![80, 8080, 8880],
            skip_domain: text::no_strings(),
            force_domain: text::no_strings(),
        };
        assert(c.tls_ports@ =~= usual().tls_ports);
        assert(c.http_ports@ =~= usual().http_ports);
        c
    }
}

/// Why a `sniffer:` section cannot be used.
#[derive(Clone, Copy, Debug, PartialEq, Eq, Structural)]
pub enum SnifferError {
    Timeout(u64),
    NoPorts,
    NoProtocols,
}

/// How an error is told.
pub open spec fn sniffer_message(e: SnifferError) -> Seq<char> {
    match e {
        SnifferError::Timeout(n) => "sniffer.timeout must be between 1 and 60000 ms, got "@
            + number::decimal(n as nat),
        SnifferError::NoPorts =>
            "sniffer.sniff is present and enable: true, but no ports are configured for any supported protocol (TLS/HTTP)"@,
        SnifferError::NoProtocols =>
            "sniffer.enable is true but sniffer.sniff map is absent or empty"@,
    }
}

impl SnifferError {
    /// How the error is told.
    pub fn message(&self) -> (s: String)
        ensures
            s@ == sniffer_message(*self),
    {
        match self {
            SnifferError::Timeout(n) => {
                let d = number::to_decimal(*n);
                "sniffer.timeout must be between 1 and 60000 ms, got ".to_owned().concat(
                    d.as_str(),
                )
            },
            SnifferError::NoPorts =>
                "sniffer.sniff is present and enable: true, but no ports are configured for any supported protocol (TLS/HTTP)".to_owned(),
            SnifferError::NoProtocols =>
                "sniffer.enable is true but sniffer.sniff map is absent or empty".to_owned(),
        }
    }
}

/// The ports of a protocol, named in letters of any case. The last entry counts.
pub open spec fn ports_of(m: Seq<(String, RawSniffProtocol)>, name: Seq<char>) -> Seq<u16>
    decreases m.len(),
{
    if m.len() == 0 {
        Seq::empty()
    } else if text::unicode_upper(m.last().0@) == name {
        match m.last().1.ports {
            Some(p) => p@,
            None => Seq::empty(),
        }
    } else {
        ports_of(m.drop_last(), name)
    }
}

/// The ports of a protocol in a section.
pub open spec fn section_ports(s: RawSniffer, name: Seq<char>) -> Seq<u16> {
    match s.sniff {
        Some(m) => ports_of(m@, name),
        None => Seq::empty(),
    }
}

/// The time that is set.
pub open spec fn timeout_of(s: RawSniffer) -> u64 {
    match s.timeout {
        Some(n) => n,
        None => 100,
    }
}

/// Why a section cannot be used.
pub open spec fn sniffer_error(s: RawSniffer) -> Option<SnifferError> {
    if !(1 <= timeout_of(s) <= 60000) {
        Some(SnifferError::Timeout(timeout_of(s)))
    } else if s.enable == Some(true) && s.sniff is None {
        Some(SnifferError::NoProtocols)
    } else if s.enable == Some(true) && section_ports(s, "TLS"@).len() == 0 && section_ports(
        s,
        "HTTP"@,
    ).len() == 0 {
        Some(SnifferError::NoPorts)
    } else {
        None
    }
}

/// A list that may be absent.
pub open spec fn opt_list(o: Option<Vec<String>>) -> Seq<Seq<char>> {
    match o {
        Some(v) => text::views(v@),
        None => Seq::empty(),
    }
}

/// What a section says.
pub open spec fn section_view(s: RawSniffer) -> SnifferView {
    SnifferView {
        enable: s.enable == Some(true),
        timeout: timeout_of(s),
        parse_pure_ip: s.parse_pure_ip != Some(false),
        override_destination: s.override_destination == Some(true),
        tls_ports: section_ports(s, "TLS"@),
        http_ports: section_ports(s, "HTTP"@),
        skip_domain: opt_list(s.skip_domain),
        force_domain: opt_list(s.force_domain),
    }
}

/// What a configuration says. Without a section the old switch for transparent
/// listeners stands for one that looks for TLS greetings.
pub open spec fn sniffer_of(raw: RawConfig) -> Result<SnifferView, SnifferError> {
    match raw.sniffer {
        Some(s) => match sniffer_error(s) {
            Some(e) => Err(e),
            None => Ok(section_view(s)),
        },
        None => if raw.tproxy_sni == Some(true) {
            Ok(tls_only())
        } else {
            Ok(usual())
        },
    }
}

fn copy_ports(p: &Option<Vec<u16>>) -> (out: Vec<u16>)
    ensures
        out@ == (match *p {
            Some(v) => v@,
            None => Seq::empty(),
        }),
{
    let mut out: Vec<u16> = Vec::new();
    if let Some(v) = p {
        let mut i: usize = 0;
        while i < v.len()
            invariant
                i <= v@.len(),
                out@ == v@.take(i as int),
            decreases v@.len() - i,
        {
            out.push(v[i]);
            i += 1;
        }
        assert(v@.take(i as int) =~= v@);
    }
    out
}

fn find_ports(s: &RawSniffer, name: &str) -> (out: Vec<u16>)
    ensures
        out@ == section_ports(*s, name@),
{
    if let Some(m) = &s.sniff {
        let mut i: usize = m.len();
        assert(m@.take(i as int) =~= m@);
        while i > 0
            invariant
                i <= m@.len(),
                s.sniff == Some(*m),
                ports_of(m@, name@) == ports_of(m@.take(i as int), name@),
            decreases i,
        {
            i -= 1;
            assert(m@.take(i + 1).drop_last() =~= m@.take(i as int));
            assert(m@.take(i + 1).last() == m@[i as int]);
            let upper = text::uppercase(m[i].0.as_str());
            if text::same(upper.as_str(), name) {
                return copy_ports(&m[i].1.ports);
            }
        }
    }
    Vec::new()
}

fn copy_list(o: &Option<Vec<String>>) -> (out: Vec<String>)
    ensures
        text::views(out@) == opt_list(*o),
{
    match o {
        Some(v) => text::copy_strings(v),
        None => text::no_strings(),
    }
}

/// Checks the `sniffer:` section.
pub fn parse_sniffer_config(raw: &RawConfig) -> (r: Result<SnifferConfig, SnifferError>)
    ensures
        (match r {
            Ok(c) => sniffer_of(*raw) == Ok::<SnifferView, SnifferError>(c@),
            Err(e) => sniffer_of(*raw) == Err::<SnifferView, SnifferError>(e),
        }),
        r matches Ok(c) ==> (c.enable ==> c.tls_ports@.len() + c.http_ports@.len() > 0) && 1
            <= c.timeout <= 60000,
{
    let old_switch = match raw.tproxy_sni {
        Some(b) => b,
        None => false,
    };
    match &raw.sniffer {
        Some(s) => {
            let enable = match s.enable {
                Some(b) => b,
                None => false,
            };
            let timeout: u64 = match s.timeout {
                Some(n) => n,
                None => 100,
            };
            if !(1 <= timeout && timeout <= 60000) {
                return Err(SnifferError::Timeout(timeout));
            }
            let tls_ports = find_ports(s, "TLS");
            let http_ports = find_ports(s, "HTTP");
            if enable && s.sniff.is_none() {
                return Err(SnifferError::NoProtocols);
            }
            if enable && tls_ports.len() == 0 && http_ports.len() == 0 {
                return Err(SnifferError::NoPorts);
            }
            let parse_pure_ip = match s.parse_pure_ip {
                Some(b) => b,
                None => true,
            };
            let override_destination = match s.override_destination {
                Some(b) => b,
                None => false,
            };
            Ok(
                SnifferConfig {
                    enable,
                    timeout,
                    parse_pure_ip,
                    override_destination,
                    tls_ports,
                    http_ports,
                    skip_domain: copy_list(&s.skip_domain),
                    force_domain: copy_list(&s.force_domain),
                },
            )
        },
        None => {
            let usual = SnifferConfig::default();
            if old_switch {
                let c = SnifferConfig {
                    enable: true,
                    timeout: usual.timeout,
                    parse_pure_ip: true,
                    override_destination: false,
                    tls_ports: vec![443],
                    http_ports: Vec::new(),
                    skip_domain: text::no_strings(),
                    force_domain: text::no_strings(),
                };
                assert(c.tls_ports@ =~= tls_only().tls_ports);
                Ok(c)
            } else {
                Ok(usual)
            }
        },
    }
}

} // verus!
