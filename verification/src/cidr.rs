//! Address ranges, which the `ipnet` crate reads.

use crate::number;
use crate::text;
use vstd::prelude::*;

verus! {

/// A number of at most so many digits and at most so large.
pub open spec fn short_number(s: Seq<char>, digits: nat, max: nat) -> Option<nat> {
    if 0 < s.len() <= digits && number::all_digits(s) && number::digits_value(s) <= max {
        Some(number::digits_value(s))
    } else {
        None
    }
}

/// Four numbers with dots between them.
pub open spec fn quad(s: Seq<char>) -> Option<u32> {
    let p = text::parts(s, '.');
    let a = short_number(p[0], 3, 255);
    let b = short_number(p[1], 3, 255);
    let c = short_number(p[2], 3, 255);
    let d = short_number(p[3], 3, 255);
    if p.len() == 4 && a is Some && b is Some && c is Some && d is Some {
        Some((a->0 * 0x1000000 + b->0 * 0x10000 + c->0 * 0x100 + d->0) as u32)
    } else {
        None
    }
}

/// A range of IPv4 addresses: an address in it, and the length of its prefix.
pub open spec fn range4(s: Seq<char>) -> Option<(u32, u8)> {
    let p = text::parts(s, '/');
    let n = short_number(p[1], 2, 32);
    if p.len() == 2 && quad(p[0]) is Some && n is Some {
        Some((quad(p[0])->0, n->0 as u8))
    } else {
        None
    }
}

/// Whether a result is the range that a text names, or tells that it names none.
pub open spec fn reads_range4(r: Result<(u32, u8), String>, s: Seq<char>) -> bool {
    match r {
        Ok(n) => range4(s) == Some(n),
        Err(e) => range4(s) is None && e@ == "invalid IP address syntax"@,
    }
}

/// `str::parse` to `ipnet::Ipv4Net` reads four numbers of at most three digits and
/// at most 255 with dots between them, a slash, and a number of at most two digits
/// and at most 32. Anything else is refused, always with the same words.
#[verifier::external_body]
pub(crate) fn parse_range4(s: &str) -> (r: Result<(u32, u8), String>)
    ensures
        reads_range4(r, s@),
{
    match s.parse::<ipnet::Ipv4Net>() {
        Ok(n) => Ok((u32::from(n.addr()), n.prefix_len())),
        Err(e) => Err(e.to_string()),
    }
}

/// A range of IPv6 addresses: an address in it, and the length of its prefix.
pub uninterp spec fn range6(s: Seq<char>) -> Option<(u128, u8)>;

/// A range of addresses.
#[derive(Clone, Copy, Debug, PartialEq, Eq, Structural)]
pub struct Range {
    pub v6: bool,
    pub address: u128,
    pub prefix: u8,
}

/// A range of IPv4 addresses, or else one of IPv6 addresses.
pub open spec fn either(four: Option<(u32, u8)>, six: Option<(u128, u8)>) -> Option<Range> {
    match (four, six) {
        (Some((a, n)), _) => Some(Range { v6: false, address: a as u128, prefix: n }),
        (None, Some((a, n))) => Some(Range { v6: true, address: a, prefix: n }),
        (None, None) => None,
    }
}

/// The range that a text names.
pub open spec fn range(s: Seq<char>) -> Option<Range> {
    either(range4(s), range6(s))
}

/// What a result says of a range.
pub open spec fn range_view(r: Result<Range, String>) -> Option<Range> {
    match r {
        Ok(x) => Some(x),
        Err(_) => None,
    }
}

/// `str::parse` to `ipnet::IpNet` reads a range of IPv4 addresses as
/// [`parse_range4`] does, and else tries a range of IPv6 addresses, always with the
/// same words where it fails. Nothing is said here of how IPv6 addresses are written.
#[verifier::external_body]
pub(crate) fn parse_range(s: &str) -> (r: Result<Range, String>)
    ensures
        range_view(r) == either(range4(s@), range6(s@)),
        r matches Err(e) ==> e@ == "invalid IP address syntax"@,
{
    match s.parse::<ipnet::IpNet>() {
        Ok(ipnet::IpNet::V4(n)) => Ok(
            Range { v6: false, address: u32::from(n.addr()) as u128, prefix: n.prefix_len() },
        ),
        Ok(ipnet::IpNet::V6(n)) => Ok(
            Range { v6: true, address: u128::from(n.addr()), prefix: n.prefix_len() },
        ),
        Err(e) => Err(e.to_string()),
    }
}

} // verus!
