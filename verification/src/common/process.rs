//! Which process a connection comes from.

use crate::common::rule::Network;
use crate::net;
use crate::net::{IpAddr, SocketAddr};
use crate::number;
use crate::paths;
use crate::text;
use vstd::prelude::*;
use vstd::string::*;

verus! {

/// A process.
#[derive(Clone, Debug, Default)]
pub struct ProcessInfo {
    pub name: String,
    pub path: String,
    pub uid: Option<u32>,
}

/// The table of the kernel that a connection stands in.
pub open spec fn table_of(network: Network, v6: bool) -> Seq<char> {
    match (network, v6) {
        (Network::Tcp, false) => "/proc/net/tcp"@,
        (Network::Tcp, true) => "/proc/net/tcp6"@,
        (Network::Udp, false) => "/proc/net/udp"@,
        (Network::Udp, true) => "/proc/net/udp6"@,
    }
}

/// The table of the kernel that a connection from an address stands in, and whether
/// its addresses are IPv6.
pub fn table_for(network: Network, local: SocketAddr) -> (r: (&'static str, bool))
    ensures
        r.1 == (local.ip is V6),
        r.0@ == table_of(network, r.1),
{
    let v6 = match local.ip {
        IpAddr::V4(_) => false,
        IpAddr::V6(_) => true,
    };
    let table = match (network, v6) {
        (Network::Tcp, false) => "/proc/net/tcp",
        (Network::Tcp, true) => "/proc/net/tcp6",
        (Network::Udp, false) => "/proc/net/udp",
        (Network::Udp, true) => "/proc/net/udp6",
    };
    (table, v6)
}

/// A hexadecimal number that is at most so large: an optional plus sign and at
/// least one digit.
pub open spec fn hex_at_most(s: Seq<char>, max: nat) -> Option<nat> {
    let d = if s.len() > 0 && s[0] == '+' {
        s.skip(1)
    } else {
        s
    };
    if d.len() > 0 && net::all_hex(d) && net::hex_number(d) <= max {
        Some(net::hex_number(d))
    } else {
        None
    }
}

proof fn lemma_hex_grows(s: Seq<char>, k: int)
    requires
        0 <= k <= s.len(),
    ensures
        net::hex_number(s.take(k)) <= net::hex_number(s),
    decreases s.len() - k,
{
    if k < s.len() {
        lemma_hex_grows(s, k + 1);
        assert(s.take(k + 1).drop_last() =~= s.take(k));
    } else {
        assert(s.take(k) =~= s);
    }
}

fn parse_hex(c: &Vec<char>, lo: usize, hi: usize, max: u32) -> (r: Option<u32>)
    requires
        lo <= hi <= c@.len(),
    ensures
        (match r {
            Some(n) => hex_at_most(c@.subrange(lo as int, hi as int), max as nat) == Some(n as nat),
            None => hex_at_most(c@.subrange(lo as int, hi as int), max as nat) is None,
        }),
{
    let ghost s = c@.subrange(lo as int, hi as int);
    let start: usize = if lo < hi && c[lo] == '+' {
        lo + 1
    } else {
        lo
    };
    let ghost d = c@.subrange(start as int, hi as int);
    proof {
        if lo < hi && c@[lo as int] == '+' {
            assert(s[0] == '+');
            assert(d =~= s.skip(1));
        } else {
            assert(d =~= s);
            if s.len() > 0 {
                assert(s[0] == c@[lo as int]);
            }
        }
    }
    if start == hi {
        return None;
    }
    let mut value: u64 = 0;
    let mut i: usize = start;
    assert(d.take(0) =~= Seq::empty());
    while i < hi
        invariant
            start <= i <= hi <= c@.len(),
            d == c@.subrange(start as int, hi as int),
            value <= max,
            value == net::hex_number(d.take(i - start)),
            forall|k: int| 0 <= k < i - start ==> net::is_hex(#[trigger] d[k]),
            hex_at_most(s, max as nat) == (if d.len() > 0 && net::all_hex(d) && net::hex_number(d)
                <= max {
                Some(net::hex_number(d))
            } else {
                None
            }),
            s == c@.subrange(lo as int, hi as int),
        decreases hi - i,
    {
        let ghost k = i - start;
        assert(d[k] == c@[i as int]);
        assert(d.take(k + 1).drop_last() =~= d.take(k));
        match net::hex_digit(c[i]) {
            Some(v) => {
                value = value * 16 + v as u64;
                assert(value == net::hex_number(d.take(k + 1)));
                if value > max as u64 {
                    proof {
                        lemma_hex_grows(d, k + 1);
                    }
                    return None;
                }
            },
            None => {
                assert(!net::is_hex(d[k]));
                return None;
            },
        }
        i += 1;
    }
    assert(d.take(i - start) =~= d);
    Some(value as u32)
}

/// The bytes of a word in the other order.
pub open spec fn swapped(v: nat) -> nat {
    (v % 0x100) * 0x1000000 + (v / 0x100 % 0x100) * 0x10000 + (v / 0x10000 % 0x100) * 0x100 + (v
        / 0x1000000 % 0x100)
}

fn swap(v: u32) -> (r: u32)
    ensures
        r == swapped(v as nat),
{
    (v % 0x100) * 0x1000000 + (v / 0x100 % 0x100) * 0x10000 + (v / 0x10000 % 0x100) * 0x100 + (v
        / 0x1000000 % 0x100)
}

/// An IPv4 address as the kernel writes it: a word of eight digits, its low byte
/// first.
pub open spec fn kernel_v4(s: Seq<char>) -> Option<IpAddr> {
    match hex_at_most(s, u32::MAX as nat) {
        Some(v) => if s.len() == 8 {
            Some(IpAddr::V4(swapped(v) as u32))
        } else {
            None
        },
        None => None,
    }
}

/// One word of an IPv6 address as the kernel writes it.
pub open spec fn kernel_word(s: Seq<char>, i: int) -> Option<nat> {
    hex_at_most(s.subrange(8 * i, 8 * i + 8), u32::MAX as nat)
}

/// An IPv6 address as the kernel writes it: four words of eight digits, the low byte
/// of each first.
pub open spec fn kernel_v6(s: Seq<char>) -> Option<IpAddr> {
    if s.len() != 32 {
        None
    } else {
        match (kernel_word(s, 0), kernel_word(s, 1), kernel_word(s, 2), kernel_word(s, 3)) {
            (Some(a), Some(b), Some(c), Some(d)) => Some(
                IpAddr::V6(
                    (((swapped(a) * 0x100000000 + swapped(b)) * 0x100000000 + swapped(c))
                        * 0x100000000 + swapped(d)) as u128,
                ),
            ),
            _ => None,
        }
    }
}

/// Reads an IPv4 address as the kernel writes it.
pub fn parse_hex_ipv4(s: &str) -> (r: Option<IpAddr>)
    ensures
        r == kernel_v4(s@),
{
    let c = text::chars_of(s);
    if c.len() != 8 {
        return None;
    }
    assert(c@.subrange(0, 8) =~= s@);
    match parse_hex(&c, 0, 8, u32::MAX) {
        Some(v) => Some(IpAddr::V4(swap(v))),
        None => None,
    }
}

/// Reads an IPv6 address as the kernel writes it.
pub fn parse_hex_ipv6(s: &str) -> (r: Option<IpAddr>)
    ensures
        r == kernel_v6(s@),
{
    let c = text::chars_of(s);
    if c.len() != 32 {
        return None;
    }
    match (
        parse_hex(&c, 0, 8, u32::MAX),
        parse_hex(&c, 8, 16, u32::MAX),
        parse_hex(&c, 16, 24, u32::MAX),
        parse_hex(&c, 24, 32, u32::MAX),
    ) {
        (Some(a), Some(b), Some(x), Some(d)) => {
            let w: u128 = 0x100000000;
            let v: u128 = ((swap(a) as u128 * w + swap(b) as u128) * w + swap(x) as u128) * w + swap(
                d,
            ) as u128;
            Some(IpAddr::V6(v))
        },
        _ => None,
    }
}

/// The IPv4 address that an IPv6 address stands for.
pub open spec fn mapped_v4(a: u128) -> Option<u32> {
    if a / 0x100000000 == 0xffff {
        Some((a % 0x100000000) as u32)
    } else {
        None
    }
}

/// Whether the address of a socket is one that a connection can come from: the same,
/// the one that stands for all, or the same written as IPv6.
pub open spec fn address_fits(found: IpAddr, target: IpAddr) -> bool {
    found == target || match (found, target) {
        (IpAddr::V4(f), _) if f == 0 => true,
        (IpAddr::V6(f), _) if f == 0 => true,
        (IpAddr::V6(f), IpAddr::V4(t)) => mapped_v4(f) == Some(t),
        _ => false,
    }
}

/// Whether the address of a socket is one that a connection can come from.
pub fn addr_matches(found: IpAddr, target: IpAddr) -> (r: bool)
    ensures
        r == address_fits(found, target),
{
    if found == target {
        return true;
    }
    match (found, target) {
        (IpAddr::V4(f), IpAddr::V4(_)) => f == 0,
        (IpAddr::V4(f), IpAddr::V6(_)) => f == 0,
        (IpAddr::V6(f), IpAddr::V4(t)) => f == 0 || (f / 0x100000000 == 0xffff && (f
            % 0x100000000) as u32 == t),
        (IpAddr::V6(f), IpAddr::V6(_)) => f == 0,
    }
}

/// What a line of a table of the kernel says.
pub enum LineView {
    /// The line is of another socket, or too short.
    Other,
    /// The line is not as the kernel writes lines.
    Broken,
    /// The line is of the socket: its inode and its owner.
    Found(u64, u32),
}

/// What a line of a table of the kernel says of a socket.
pub open spec fn line_says(line: Seq<char>, target: SocketAddr, v6: bool) -> LineView {
    let cols = text::word_list(line);
    if cols.len() < 10 {
        LineView::Other
    } else {
        match text::find(cols[1], ':') {
            None => LineView::Broken,
            Some(i) => match hex_at_most(cols[1].skip(i + 1), u16::MAX as nat) {
                None => LineView::Broken,
                Some(port) => if port != target.port {
                    LineView::Other
                } else {
                    let address = if v6 {
                        kernel_v6(cols[1].take(i))
                    } else {
                        kernel_v4(cols[1].take(i))
                    };
                    match address {
                        None => LineView::Broken,
                        Some(a) => if !address_fits(a, target.ip) {
                            LineView::Other
                        } else {
                            match (
                                number::unsigned(cols[7], u32::MAX as nat),
                                number::unsigned(cols[9], u64::MAX as nat),
                            ) {
                                (Some(uid), Some(inode)) => LineView::Found(
                                    inode as u64,
                                    uid as u32,
                                ),
                                _ => LineView::Broken,
                            }
                        },
                    }
                },
            },
        }
    }
}

/// The inode and the owner of a socket, from a line on.
pub open spec fn scan(lines: Seq<Seq<char>>, from: int, target: SocketAddr, v6: bool) -> Option<
    (u64, u32),
>
    decreases lines.len() - from,
{
    if from < 0 || from >= lines.len() {
        None
    } else {
        match line_says(lines[from], target, v6) {
            LineView::Found(inode, uid) => Some((inode, uid)),
            LineView::Broken => None,
            LineView::Other => scan(lines, from + 1, target, v6),
        }
    }
}

fn read_line(line: &str, target: SocketAddr, v6: bool) -> (r: Result<Option<(u64, u32)>, ()>)
    ensures
        (match (r, line_says(line@, target, v6)) {
            (Ok(Some(x)), LineView::Found(inode, uid)) => x == (inode, uid),
            (Ok(None), LineView::Other) => true,
            (Err(_), LineView::Broken) => true,
            _ => false,
        }),
{
    let cols = text::words(line);
    let ghost w = text::views(cols@);
    if cols.len() < 10 {
        return Ok(None);
    }
    assert(w[1] == cols@[1]@ && w[7] == cols@[7]@ && w[9] == cols@[9]@);
    let c = text::chars_of(cols[1].as_str());
    let n: usize = c.len();
    let i = match text::find_char(&c, ':') {
        Some(i) => i,
        None => return Err(()),
    };
    assert(c@.subrange(i + 1, n as int) =~= w[1].skip(i + 1));
    let port = match parse_hex(&c, i + 1, n, 0xffff) {
        Some(p) => p,
        None => return Err(()),
    };
    if port != target.port as u32 {
        return Ok(None);
    }
    let a = text::string_range(&c, 0, i);
    assert(a@ =~= w[1].take(i as int));
    let address = if v6 {
        parse_hex_ipv6(a.as_str())
    } else {
        parse_hex_ipv4(a.as_str())
    };
    let address = match address {
        Some(a) => a,
        None => return Err(()),
    };
    if !addr_matches(address, target.ip) {
        return Ok(None);
    }
    match (
        number::parse_u32(cols[7].as_str()),
        number::parse_unsigned(cols[9].as_str(), u64::MAX),
    ) {
        (Some(uid), Some(inode)) => Ok(Some((inode, uid))),
        _ => Err(()),
    }
}

/// The inode and the owner of the socket of a connection, from a table of the
/// kernel. A line that is not as the kernel writes lines ends the search.
pub fn scan_proc_net(buf: &str, target: SocketAddr, ipv6: bool) -> (r: Option<(u64, u32)>)
    ensures
        r == scan(text::line_list(buf@), 1, target, ipv6),
{
    let lines = text::lines(buf);
    let ghost all = text::views(lines@);
    let mut i: usize = 1;
    while i < lines.len()
        invariant
            1 <= i,
            all == text::views(lines@),
            all == text::line_list(buf@),
            scan(all, 1, target, ipv6) == scan(all, i as int, target, ipv6),
        decreases lines@.len() - i,
    {
        let n: usize = lines.len();
        assert(all[i as int] == lines@[i as int]@);
        match read_line(lines[i].as_str(), target, ipv6) {
            Ok(Some(x)) => return Some(x),
            Err(_) => return None,
            Ok(None) => {},
        }
        i += 1;
    }
    None
}

/// What a link to a socket reads.
pub fn socket_link(inode: u64) -> (s: String)
    ensures
        s@ == "socket:["@ + number::decimal(inode as nat) + "]"@,
{
    let n = number::to_decimal(inode);
    "socket:[".to_owned().concat(n.as_str()).concat("]")
}

/// The name of a process: of the file that it runs, or the short name that the
/// kernel keeps where the file has none or is not to be seen.
pub open spec fn process_name(exe: Option<Seq<char>>, comm: Seq<char>) -> Seq<char> {
    match exe {
        Some(p) => match paths::file_name(p) {
            Some(n) => n,
            None => text::trimmed(comm),
        },
        None => text::trimmed(comm),
    }
}

/// A process, from the file that it runs and the short name that the kernel keeps.
pub fn process_of(exe: Option<&str>, comm: &str, uid: u32) -> (p: ProcessInfo)
    ensures
        p.name@ == process_name(
            match exe {
                Some(e) => Some(e@),
                None => None,
            },
            comm@,
        ),
        p.path@ == (match exe {
            Some(e) => e@,
            None => Seq::empty(),
        }),
        p.uid == Some(uid),
{
    match exe {
        Some(e) => {
            let name = match paths::file_name_of(e) {
                Some(n) => n,
                None => text::trim(comm),
            };
            ProcessInfo { name, path: e.to_owned(), uid: Some(uid) }
        },
        None => {
            let path = String::new();
            assert(path@ =~= Seq::empty());
            ProcessInfo { name: text::trim(comm), path, uid: Some(uid) }
        },
    }
}

/// A socket of a process, where the system lists them.
#[derive(Clone, Copy, Debug, PartialEq, Eq, Structural)]
pub struct SocketRow {
    pub address: IpAddr,
    pub port: u16,
    pub pid: u32,
}

/// The first socket, from a position on, that a connection can come from.
pub open spec fn first_owner(rows: Seq<SocketRow>, from: int, target: SocketAddr) -> Option<u32>
    decreases rows.len() - from,
{
    if from < 0 || from >= rows.len() {
        None
    } else if rows[from].port == target.port && address_fits(rows[from].address, target.ip) {
        Some(rows[from].pid)
    } else {
        first_owner(rows, from + 1, target)
    }
}

/// The process of a connection, where the system lists the sockets of processes.
pub fn owner_of(rows: &Vec<SocketRow>, target: SocketAddr) -> (r: Option<u32>)
    ensures
        r == first_owner(rows@, 0, target),
{
    let mut i: usize = 0;
    while i < rows.len()
        invariant
            i <= rows@.len(),
            first_owner(rows@, 0, target) == first_owner(rows@, i as int, target),
        decreases rows@.len() - i,
    {
        if rows[i].port == target.port && addr_matches(rows[i].address, target.ip) {
            return Some(rows[i].pid);
        }
        i += 1;
    }
    None
}

/// A socket that stands for every address is taken for a connection from any.
pub proof fn law_wildcards_fit(target: IpAddr)
    ensures
        address_fits(IpAddr::V4(0), target),
        address_fits(IpAddr::V6(0), target),
{
}

} // verus!
