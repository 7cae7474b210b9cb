//! The virtual network device.

use crate::cidr;
use crate::config::raw::RawTun;
use crate::config::yaml::Yaml;
use crate::number;
use crate::text;
use vstd::prelude::*;
use vstd::string::*;

verus! {

/// A checked `tun:` section.
#[derive(Debug)]
pub struct TunConfig {
    pub enable: bool,
    /// The name of the device, if it is not the usual one.
    pub device: Option<String>,
    pub mtu: u16,
    /// The address of the device and the length of its prefix.
    pub inet4_address: (u32, u8),
    pub auto_route: bool,
    /// Whether queries to port 53 are answered here.
    pub dns_hijack: bool,
    /// How long a datagram flow is kept, in seconds.
    pub udp_timeout: u64,
}

/// Whether a device is the usual one, which is switched off: 172.19.0.1/30, frames of
/// 1500 bytes.
pub open spec fn usual_tun(c: TunConfig) -> bool {
    &&& !c.enable
    &&& c.device is None
    &&& c.mtu == 1500
    &&& c.inet4_address == (0xac130001u32, 30u8)
    &&& c.auto_route
    &&& !c.dns_hijack
    &&& c.udp_timeout == 60
}

impl Default for TunConfig {
    /// A device that is switched off: 172.19.0.1/30, frames of 1500 bytes.
    fn default() -> (c: Self)
        ensures
            usual_tun(c),
    {
        TunConfig {
            enable: false,
            device: None,
            mtu: 1500,
            inet4_address: (0xac130001, 30),
            auto_route: true,
            dns_hijack: false,
            udp_timeout: 60,
        }
    }
}

/// The smallest frame that IPv6 can do with.
pub const TUN_MIN_MTU: u16 = 1280;

/// Why a `tun:` section cannot be used.
#[derive(Clone, Debug)]
pub enum TunError {
    Mtu(u16),
    Address { text: String, reason: String },
    Timeout,
}

/// A [`TunError`] with its texts as sequences.
pub enum TunErrorView {
    Mtu(u16),
    Address { text: Seq<char>, reason: Seq<char> },
    Timeout,
}

impl View for TunError {
    type V = TunErrorView;

    open spec fn view(&self) -> TunErrorView {
        match self {
            TunError::Mtu(n) => TunErrorView::Mtu(*n),
            TunError::Address { text, reason } => TunErrorView::Address {
                text: text@,
                reason: reason@,
            },
            TunError::Timeout => TunErrorView::Timeout,
        }
    }
}

/// How an error is told.
pub open spec fn tun_message(e: TunErrorView) -> Seq<char> {
    match e {
        TunErrorView::Mtu(n) => "tun.mtu: "@ + number::decimal(n as nat)
            + " is below the minimum 1280 required by the userspace stack"@,
        TunErrorView::Address { text, reason } => "tun.inet4-address: invalid CIDR '"@ + text
            + "': "@ + reason,
        TunErrorView::Timeout => "tun.udp-timeout: must be at least 1 second"@,
    }
}

impl TunError {
    /// How the error is told.
    pub fn message(&self) -> (s: String)
        ensures
            s@ == tun_message(self@),
    {
        match self {
            TunError::Mtu(n) => {
                let d = number::to_decimal(*n as u64);
                "tun.mtu: ".to_owned().concat(d.as_str()).concat(
                    " is below the minimum 1280 required by the userspace stack",
                )
            },
            TunError::Address { text, reason } => "tun.inet4-address: invalid CIDR '".to_owned().concat(
                text.as_str(),
            ).concat("': ").concat(reason.as_str()),
            TunError::Timeout => "tun.udp-timeout: must be at least 1 second".to_owned(),
        }
    }
}

/// Whether an entry asks for queries to port 53: what follows its last colon is
/// that port.
pub open spec fn hijacks(entry: Seq<char>) -> bool {
    number::unsigned(text::parts(entry, ':').last(), u16::MAX as nat) == Some(53nat)
}

/// Whether some entry asks for queries to port 53.
pub open spec fn any_hijack(entries: Seq<Seq<char>>) -> bool {
    exists|i: int| 0 <= i < entries.len() && hijacks(#[trigger] entries[i])
}

/// The frame size that is set.
pub open spec fn mtu_of(r: RawTun) -> u16 {
    match r.mtu {
        Some(n) => n,
        None => 1500,
    }
}

/// Why a section cannot be used: the first that is wrong of the frame size, the
/// address and the timeout.
pub open spec fn tun_error(r: RawTun) -> Option<TunErrorView> {
    if mtu_of(r) < TUN_MIN_MTU {
        Some(TunErrorView::Mtu(mtu_of(r)))
    } else if r.inet4_address matches Some(a) && cidr::range4(a@) is None {
        Some(
            TunErrorView::Address {
                text: r.inet4_address->0@,
                reason: "invalid IP address syntax"@,
            },
        )
    } else if r.udp_timeout == Some(0u64) {
        Some(TunErrorView::Timeout)
    } else {
        None
    }
}

/// Whether a device is the one that a section describes.
pub open spec fn tun_matches(c: TunConfig, r: RawTun) -> bool {
    &&& c.enable == r.enable
    &&& text::opt_view(c.device) == (match r.device {
        Some(d) => if d@.len() > 0 {
            Some(d@)
        } else {
            None
        },
        None => None,
    })
    &&& c.mtu == mtu_of(r)
    &&& c.inet4_address == (match r.inet4_address {
        Some(a) => cidr::range4(a@)->0,
        None => (0xac130001u32, 30u8),
    })
    &&& c.auto_route == (r.auto_route != Some(false))
    &&& c.dns_hijack == (match r.dns_hijack {
        Some(v) => any_hijack(text::views(v@)),
        None => false,
    })
    &&& c.udp_timeout == (match r.udp_timeout {
        Some(n) => n,
        None => 60,
    })
}

fn is_hijack(entry: &str) -> (r: bool)
    ensures
        r == hijacks(entry@),
{
    let p = text::split(entry, ':');
    assert(text::views(p@).last() == p@.last()@);
    match number::parse_u16(p[p.len() - 1].as_str()) {
        Some(n) => n == 53,
        None => false,
    }
}

/// How it is told that an option is not supported.
pub open spec fn unsupported_message(name: Seq<char>) -> Seq<char> {
    "tun."@ + name
        + ": field is not supported in meow-rs and will be ignored; remove it to suppress this warning"@
}

/// How it is told that an entry does not ask for port 53.
pub open spec fn hijack_message(entry: Seq<char>) -> Seq<char> {
    "tun.dns-hijack: entry '"@ + entry
        + "' is not a :53 target; meow-rs only hijacks UDP port 53 — entry ignored"@
}

/// What is told of an option that is not supported, where it is set.
pub open spec fn unsupported(name: Seq<char>, option: Option<Yaml>) -> Seq<Seq<char>> {
    if option is Some {
        seq![unsupported_message(name)]
    } else {
        Seq::empty()
    }
}

/// What is told of the options that are not supported.
pub open spec fn all_unsupported(r: RawTun) -> Seq<Seq<char>> {
    unsupported("stack"@, r.stack) + unsupported("strict-route"@, r.strict_route) + unsupported(
        "auto-detect-interface"@,
        r.auto_detect_interface,
    ) + unsupported("auto-redirect"@, r.auto_redirect) + unsupported(
        "inet6-address"@,
        r.inet6_address,
    ) + unsupported("endpoint-independent-nat"@, r.endpoint_independent_nat) + unsupported(
        "mtu-v6"@,
        r.mtu_v6,
    ) + unsupported("route-address"@, r.route_address) + unsupported(
        "route-exclude-address"@,
        r.route_exclude_address,
    ) + unsupported("include-uid"@, r.include_uid) + unsupported("exclude-uid"@, r.exclude_uid)
}

/// What is told of the entries that ask for something else than port 53, and are
/// passed over.
pub open spec fn ignored_hijacks(entries: Seq<Seq<char>>) -> Seq<Seq<char>>
    decreases entries.len(),
{
    if entries.len() == 0 {
        Seq::empty()
    } else {
        let had = ignored_hijacks(entries.drop_last());
        if hijacks(entries.last()) {
            had
        } else {
            had.push(hijack_message(entries.last()))
        }
    }
}

/// What is told of a section. Its entries are looked at only where its frame size and
/// its address can be used.
pub open spec fn tun_warnings_of(r: RawTun) -> Seq<Seq<char>> {
    all_unsupported(r) + (match (r.dns_hijack, tun_error(r)) {
        (Some(v), None) => ignored_hijacks(text::views(v@)),
        (Some(v), Some(TunErrorView::Timeout)) => ignored_hijacks(text::views(v@)),
        _ => Seq::empty(),
    })
}

fn note_unsupported(out: &mut Vec<String>, name: &str, option: &Option<Yaml>)
    ensures
        text::views(final(out)@) == text::views(old(out)@) + unsupported(name@, *option),
{
    let ghost had = text::views(out@);
    if option.is_some() {
        let m = "tun.".to_owned().concat(name).concat(
            ": field is not supported in meow-rs and will be ignored; remove it to suppress this warning",
        );
        out.push(m);
        assert(text::views(out@) =~= had.push(m@));
        assert(had + seq![m@] =~= had.push(m@));
    } else {
        assert(had + Seq::<Seq<char>>::empty() =~= had);
    }
}

fn note_hijacks(out: &mut Vec<String>, entries: &Vec<String>)
    ensures
        text::views(final(out)@) == text::views(old(out)@) + ignored_hijacks(
            text::views(entries@),
        ),
{
    let ghost had = text::views(out@);
    let ghost all = text::views(entries@);
    let mut i: usize = 0;
    assert(had + ignored_hijacks(all.take(0)) =~= had);
    while i < entries.len()
        invariant
            i <= entries@.len(),
            all == text::views(entries@),
            text::views(out@) == had + ignored_hijacks(all.take(i as int)),
        decreases entries@.len() - i,
    {
        let ghost before = text::views(out@);
        let ghost told = ignored_hijacks(all.take(i as int));
        assert(all.take(i + 1).drop_last() =~= all.take(i as int));
        assert(all.take(i + 1).last() == entries@[i as int]@);
        if !is_hijack(entries[i].as_str()) {
            let m = "tun.dns-hijack: entry '".to_owned().concat(entries[i].as_str()).concat(
                "' is not a :53 target; meow-rs only hijacks UDP port 53 — entry ignored",
            );
            out.push(m);
            assert(text::views(out@) =~= before.push(m@));
            assert(before.push(m@) =~= had + told.push(m@));
        }
        i += 1;
    }
    assert(all.take(i as int) =~= all);
}

/// What is told of a `tun:` section: the options that are not supported, and the entries
/// that are passed over.
pub fn tun_warnings(r: &RawTun) -> (out: Vec<String>)
    ensures
        text::views(out@) == tun_warnings_of(*r),
{
    let mut out: Vec<String> = Vec::new();
    let ghost none = text::views(out@);
    note_unsupported(&mut out, "stack", &r.stack);
    proof {
        assert(none =~= Seq::<Seq<char>>::empty());
        assert(none + unsupported("stack"@, r.stack) =~= unsupported("stack"@, r.stack));
    }
    note_unsupported(&mut out, "strict-route", &r.strict_route);
    note_unsupported(&mut out, "auto-detect-interface", &r.auto_detect_interface);
    note_unsupported(&mut out, "auto-redirect", &r.auto_redirect);
    note_unsupported(&mut out, "inet6-address", &r.inet6_address);
    note_unsupported(&mut out, "endpoint-independent-nat", &r.endpoint_independent_nat);
    note_unsupported(&mut out, "mtu-v6", &r.mtu_v6);
    note_unsupported(&mut out, "route-address", &r.route_address);
    note_unsupported(&mut out, "route-exclude-address", &r.route_exclude_address);
    note_unsupported(&mut out, "include-uid", &r.include_uid);
    note_unsupported(&mut out, "exclude-uid", &r.exclude_uid);
    let looked_at = match parse_tun_config(Some(r)) {
        Ok(_) => true,
        Err(TunError::Timeout) => true,
        Err(_) => false,
    };
    assert(text::views(out@) + Seq::<Seq<char>>::empty() =~= text::views(out@));
    if looked_at {
        if let Some(v) = &r.dns_hijack {
            note_hijacks(&mut out, v);
        }
    }
    out
}

fn has_hijack(entries: &Vec<String>) -> (r: bool)
    ensures
        r == any_hijack(text::views(entries@)),
{
    let ghost all = text::views(entries@);
    let mut i: usize = 0;
    while i < entries.len()
        invariant
            i <= entries@.len(),
            all == text::views(entries@),
            forall|k: int| 0 <= k < i ==> !hijacks(#[trigger] all[k]),
        decreases entries@.len() - i,
    {
        assert(all[i as int] == entries@[i as int]@);
        if is_hijack(entries[i].as_str()) {
            return true;
        }
        i += 1;
    }
    false
}

/// Checks a `tun:` section. Without one the device is switched off.
pub fn parse_tun_config(raw: Option<&RawTun>) -> (r: Result<TunConfig, TunError>)
    ensures
        (match (raw, r) {
            (None, Ok(c)) => usual_tun(c),
            (Some(t), Ok(c)) => tun_error(*t) is None && tun_matches(c, *t),
            (Some(t), Err(e)) => tun_error(*t) == Some(e@),
            (None, Err(_)) => false,
        }),
{
    let usual = TunConfig::default();
    let r = match raw {
        Some(r) => r,
        None => return Ok(usual),
    };
    let mtu: u16 = match r.mtu {
        Some(n) => n,
        None => usual.mtu,
    };
    if mtu < TUN_MIN_MTU {
        return Err(TunError::Mtu(mtu));
    }
    let inet4_address = match &r.inet4_address {
        Some(a) => match cidr::parse_range4(a.as_str()) {
            Ok(n) => n,
            Err(reason) => return Err(TunError::Address { text: a.clone(), reason }),
        },
        None => usual.inet4_address,
    };
    let dns_hijack = match &r.dns_hijack {
        Some(v) => has_hijack(v),
        None => false,
    };
    let udp_timeout: u64 = match r.udp_timeout {
        Some(n) => {
            if n == 0 {
                return Err(TunError::Timeout);
            }
            n
        },
        None => usual.udp_timeout,
    };
    let device = match &r.device {
        Some(d) => if d.as_str().unicode_len() > 0 {
            Some(d.clone())
        } else {
            None
        },
        None => None,
    };
    let auto_route = match r.auto_route {
        Some(b) => b,
        None => usual.auto_route,
    };
    Ok(TunConfig { enable: r.enable, device, mtu, inet4_address, auto_route, dns_hijack, udp_timeout })
}

} // verus!
