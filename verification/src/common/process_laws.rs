//! What holds of the search for the process behind a connection.

use crate::common::process;
use crate::common::process::{LineView, ProcessInfo, SocketRow};
use crate::common::rule::Network;
use crate::net;
use crate::net::{IpAddr, SocketAddr};
use crate::number;
use crate::text;
use crate::text_laws;
use vstd::prelude::*;
use vstd::string::*;

verus! {

/// Whether a line of the table is of the socket that is looked for.
pub open spec fn found_in(line: Seq<char>, target: SocketAddr, v6: bool) -> bool {
    process::line_says(line, target, v6) is Found
}

/// Whether a line of the table is of another socket.
pub open spec fn passed_over(line: Seq<char>, target: SocketAddr, v6: bool) -> bool {
    process::line_says(line, target, v6) is Other
}

proof fn lemma_scan_reaches(
    lines: Seq<Seq<char>>,
    from: int,
    i: int,
    target: SocketAddr,
    v6: bool,
)
    requires
        0 <= from <= i < lines.len(),
        forall|j: int| from <= j < i ==> passed_over(#[trigger] lines[j], target, v6),
    ensures
        process::scan(lines, from, target, v6) == process::scan(lines, i, target, v6),
    decreases i - from,
{
    if from < i {
        assert(passed_over(lines[from], target, v6));
        lemma_scan_reaches(lines, from + 1, i, target, v6);
    }
}

/// The first line behind the heading that is of the socket is found, whichever line it
/// is, as long as each line between is of another socket; what is told is the file and
/// the owner in that line. A line that cannot be read ends the search with nothing.
pub proof fn law_the_first_line_of_the_socket_is_found(
    lines: Seq<Seq<char>>,
    i: int,
    target: SocketAddr,
    v6: bool,
)
    requires
        1 <= i < lines.len(),
        forall|j: int| 1 <= j < i ==> passed_over(#[trigger] lines[j], target, v6),
    ensures
        process::line_says(lines[i], target, v6) matches LineView::Found(inode, uid)
            ==> process::scan(lines, 1, target, v6) == Some((inode, uid)),
        process::line_says(lines[i], target, v6) is Broken ==> process::scan(
            lines,
            1,
            target,
            v6,
        ) is None,
{
    lemma_scan_reaches(lines, 1, i, target, v6);
}

proof fn lemma_scan_finds(lines: Seq<Seq<char>>, from: int, target: SocketAddr, v6: bool) -> (i:
    int)
    requires
        1 <= from,
        process::scan(lines, from, target, v6) is Some,
    ensures
        from <= i < lines.len(),
        forall|j: int| from <= j < i ==> passed_over(#[trigger] lines[j], target, v6),
        process::line_says(lines[i], target, v6) matches LineView::Found(inode, uid)
            && process::scan(lines, from, target, v6) == Some((inode, uid)),
    decreases lines.len() - from,
{
    if found_in(lines[from], target, v6) {
        from
    } else {
        lemma_scan_finds(lines, from + 1, target, v6)
    }
}

/// Nothing is told only where no line is of the socket, or where a line that cannot be
/// read stands before the first one that is. What is told stands in a line of the
/// socket.
pub proof fn law_nothing_is_told_only_where_nothing_is_found(
    lines: Seq<Seq<char>>,
    target: SocketAddr,
    v6: bool,
)
    ensures
        process::scan(lines, 1, target, v6) is Some <==> exists|i: int|
            1 <= i < lines.len() && found_in(#[trigger] lines[i], target, v6) && forall|j: int|
                1 <= j < i ==> passed_over(#[trigger] lines[j], target, v6),
        process::scan(lines, 1, target, v6) matches Some(r) ==> exists|i: int|
            1 <= i < lines.len() && #[trigger] process::line_says(lines[i], target, v6)
                == LineView::Found(r.0, r.1),
{
    if process::scan(lines, 1, target, v6) is Some {
        let i = lemma_scan_finds(lines, 1, target, v6);
        assert(found_in(lines[i], target, v6));
    }
    if exists|i: int|
        1 <= i < lines.len() && found_in(#[trigger] lines[i], target, v6) && forall|j: int|
            1 <= j < i ==> passed_over(#[trigger] lines[j], target, v6) {
        let i = choose|i: int|
            1 <= i < lines.len() && found_in(#[trigger] lines[i], target, v6) && forall|j: int|
                1 <= j < i ==> passed_over(#[trigger] lines[j], target, v6);
        law_the_first_line_of_the_socket_is_found(lines, i, target, v6);
    }
}

/// A line is of the socket where its second column is the address and the port of the
/// socket: the address as the kernel writes it, a colon and the port in base sixteen.
/// Then its eighth column is the owner and its tenth the file.
pub proof fn law_a_line_names_its_socket(
    line: Seq<char>,
    address: Seq<char>,
    port: Seq<char>,
    uid: u32,
    inode: u64,
    target: SocketAddr,
    v6: bool,
)
    requires
        text::word_list(line).len() >= 10,
        !address.contains(':'),
        text::word_list(line)[1] == address + seq![':'] + port,
        text::word_list(line)[7] == number::decimal(uid as nat),
        text::word_list(line)[9] == number::decimal(inode as nat),
        process::hex_at_most(port, u16::MAX as nat) is Some,
    ensures
        ({
            let written = if v6 {
                process::kernel_v6(address)
            } else {
                process::kernel_v4(address)
            };
            let says = process::line_says(line, target, v6);
            &&& process::hex_at_most(port, u16::MAX as nat) == Some(target.port as nat) && (
            written matches Some(a) && process::address_fits(a, target.ip)) ==> says
                == LineView::Found(inode, uid)
            &&& process::hex_at_most(port, u16::MAX as nat) != Some(target.port as nat) ==> says is Other
            &&& (written matches Some(a) && !process::address_fits(a, target.ip)) ==> says is Other
        }),
{
    let col = text::word_list(line)[1];
    text_laws::law_the_first_place_is_found(col, ':');
    assert(col[address.len() as int] == ':');
    let i = text::find(col, ':')->0;
    if i < address.len() {
        assert(address[i] == ':');
    }
    if i > address.len() {
        assert(col.take(i)[address.len() as int] == ':');
    }
    assert(col.take(i) =~= address);
    assert(col.skip(i + 1) =~= port);
    text_laws::law_only_digits_are_numbers(Seq::empty(), uid as nat, u32::MAX as nat);
    text_laws::law_only_digits_are_numbers(Seq::empty(), inode as nat, u64::MAX as nat);
}

/// An address fits a socket where it is the address of the socket, where it stands for
/// any address, or where it is the socket's address of the old kind written as a new
/// one. No other address fits.
pub proof fn law_which_addresses_fit(a: u32, b: u32, x: u128, y: u128)
    ensures
        process::address_fits(IpAddr::V4(a), IpAddr::V4(b)) <==> a == b || a == 0,
        process::address_fits(IpAddr::V6(x), IpAddr::V6(y)) <==> x == y || x == 0,
        process::address_fits(IpAddr::V4(a), IpAddr::V6(y)) <==> a == 0,
        process::address_fits(IpAddr::V6(x), IpAddr::V4(b)) <==> x == 0 || x == 0xffff_0000_0000
            + b,
{
}

/// The kernel writes the last byte of an address first: read backwards, byte by byte,
/// the number is the address.
pub proof fn law_the_kernel_writes_addresses_backwards(s: Seq<char>, a: u32)
    requires
        process::kernel_v4(s) == Some(IpAddr::V4(a)),
    ensures
        s.len() == 8,
        ({
            let v = process::hex_at_most(s, u32::MAX as nat)->0;
            &&& a % 0x100 == v / 0x100_0000
            &&& a / 0x100 % 0x100 == v / 0x1_0000 % 0x100
            &&& a / 0x1_0000 % 0x100 == v / 0x100 % 0x100
            &&& a / 0x100_0000 == v % 0x100
            &&& process::swapped(process::swapped(v)) == v
        }),
{
    let v = process::hex_at_most(s, u32::MAX as nat)->0;
    assert(v <= u32::MAX);
    let w = v as u32;
    let p = w % 0x100;
    let q = w / 0x100 % 0x100;
    let r = w / 0x1_0000 % 0x100;
    let t = w / 0x100_0000;
    assert(w == t * 0x100_0000 + r * 0x1_0000 + q * 0x100 + p && t < 0x100 && w / 0x100_0000 % 0x100
        == t) by (bit_vector)
        requires
            p == w % 0x100u32,
            q == w / 0x100u32 % 0x100u32,
            r == w / 0x1_0000u32 % 0x100u32,
            t == w / 0x100_0000u32,
    ;
    lemma_swapped(p as nat, q as nat, r as nat, t as nat);
    lemma_swapped(t as nat, r as nat, q as nat, p as nat);
    assert(process::swapped(v) == p * 0x100_0000 + q * 0x1_0000 + r * 0x100 + t);
}

proof fn lemma_swapped(p: nat, q: nat, r: nat, t: nat)
    requires
        p < 0x100,
        q < 0x100,
        r < 0x100,
        t < 0x100,
    ensures
        ({
            let x = p * 0x100_0000 + q * 0x1_0000 + r * 0x100 + t;
            &&& x <= u32::MAX
            &&& x % 0x100 == t
            &&& x / 0x100 % 0x100 == r
            &&& x / 0x1_0000 % 0x100 == q
            &&& x / 0x100_0000 == p
            &&& x / 0x100_0000 % 0x100 == p
        }),
{
    let x = p * 0x100_0000 + q * 0x1_0000 + r * 0x100 + t;
    assert(x / 0x100 == p * 0x1_0000 + q * 0x100 + r);
    assert(x / 0x1_0000 == p * 0x100 + q);
    assert(x / 0x100_0000 == p);
}

/// The process of a connection is that of the first row with its port and an address
/// that fits; nothing is told only where there is no such row.
pub proof fn law_the_first_row_of_the_socket_owns_it(
    rows: Seq<SocketRow>,
    i: int,
    target: SocketAddr,
)
    requires
        0 <= i <= rows.len(),
        forall|j: int|
            0 <= j < i ==> !((#[trigger] rows[j]).port == target.port && process::address_fits(
                rows[j].address,
                target.ip,
            )),
    ensures
        i < rows.len() && rows[i].port == target.port && process::address_fits(
            rows[i].address,
            target.ip,
        ) ==> process::first_owner(rows, 0, target) == Some(rows[i].pid),
        i == rows.len() ==> process::first_owner(rows, 0, target) is None,
{
    lemma_owner(rows, 0, i, target);
}

proof fn lemma_owner(rows: Seq<SocketRow>, from: int, i: int, target: SocketAddr)
    requires
        0 <= from <= i <= rows.len(),
        forall|j: int|
            from <= j < i ==> !((#[trigger] rows[j]).port == target.port && process::address_fits(
                rows[j].address,
                target.ip,
            )),
    ensures
        process::first_owner(rows, from, target) == process::first_owner(rows, i, target),
    decreases i - from,
{
    if from < i {
        lemma_owner(rows, from + 1, i, target);
    }
}

/// A socket is looked for in the table of its network and of its kind of address.
pub proof fn law_which_table_is_read(network: Network, local: SocketAddr, r: (&'static str, bool))
    requires
        call_ensures(process::table_for, (network, local), r),
    ensures
        r.1 <==> local.ip is V6,
        network is Tcp && local.ip is V4 ==> r.0@ == "/proc/net/tcp"@,
        network is Tcp && local.ip is V6 ==> r.0@ == "/proc/net/tcp6"@,
        network is Udp && local.ip is V4 ==> r.0@ == "/proc/net/udp"@,
        network is Udp && local.ip is V6 ==> r.0@ == "/proc/net/udp6"@,
{
}

/// A process has the socket among its files under the number of the socket.
pub proof fn law_how_sockets_are_linked(inode: u64, s: String)
    requires
        call_ensures(process::socket_link, (inode,), s),
    ensures
        s@ == seq!['s', 'o', 'c', 'k', 'e', 't', ':', '['] + number::decimal(inode as nat).push(']'),
{
    reveal_strlit("socket:[");
    reveal_strlit("]");
    assert("socket:["@ =~= seq!['s', 'o', 'c', 'k', 'e', 't', ':', '[']);
    assert(s@ =~= seq!['s', 'o', 'c', 'k', 'e', 't', ':', '['] + number::decimal(
        inode as nat,
    ).push(']'));
}

/// What is told of a process: its file and its user, and no path where the file is not
/// known.
pub proof fn law_what_is_told_of_a_process(exe: Option<&str>, comm: &str, uid: u32, p: ProcessInfo)
    requires
        call_ensures(process::process_of, (exe, comm, uid), p),
    ensures
        p.uid == Some(uid),
        exe matches Some(e) ==> p.path@ == e@,
        exe is None ==> p.path@.len() == 0 && p.name@ == text::trimmed(comm@),
{
}

} // verus!
