//! Internet addresses and their notation.

use crate::number;
use crate::text;
use crate::text::chars_of;
use vstd::prelude::*;
use vstd::string::*;

verus! {

/// An address of either family, as the number that its bytes in network order
/// denote.
#[derive(Clone, Copy, Debug, PartialEq, Eq, Structural)]
pub enum IpAddr {
    V4(u32),
    V6(u128),
}

/// An address with a port. The scope is that of a link-local IPv6 address.
#[derive(Clone, Copy, Debug, PartialEq, Eq, Structural)]
pub struct SocketAddr {
    pub ip: IpAddr,
    pub port: u16,
    pub scope: u32,
}

/// One number of a dotted address: at most 255, without leading zeros.
pub open spec fn octet(s: Seq<char>) -> Option<nat> {
    if 1 <= s.len() <= 3 && number::all_digits(s) && (s.len() > 1 ==> s[0] != '0')
        && number::digits_value(s) <= 255 {
        Some(number::digits_value(s))
    } else {
        None
    }
}

/// A dotted IPv4 address.
pub open spec fn ipv4(s: Seq<char>) -> Option<u32> {
    let p = text::parts(s, '.');
    if p.len() == 4 && octet(p[0]) is Some && octet(p[1]) is Some && octet(p[2]) is Some && octet(
        p[3],
    ) is Some {
        Some(
            (octet(p[0])->0 * 0x100_0000 + octet(p[1])->0 * 0x1_0000 + octet(p[2])->0 * 0x100
                + octet(p[3])->0) as u32,
        )
    } else {
        None
    }
}

/// Whether the character is a hexadecimal digit.
pub open spec fn is_hex(c: char) -> bool {
    number::is_digit(c) || 'a' <= c <= 'f' || 'A' <= c <= 'F'
}

/// The value of a hexadecimal digit.
pub open spec fn hex_value(c: char) -> nat {
    if number::is_digit(c) {
        number::digit_value(c)
    } else if 'a' <= c <= 'f' {
        (c as u32 - 'a' as u32 + 10) as nat
    } else {
        (c as u32 - 'A' as u32 + 10) as nat
    }
}

/// The number that hexadecimal digits denote.
pub open spec fn hex_number(s: Seq<char>) -> nat
    decreases s.len(),
{
    if s.len() == 0 {
        0
    } else {
        16 * hex_number(s.drop_last()) + hex_value(s.last())
    }
}

/// Whether every character is a hexadecimal digit.
pub open spec fn all_hex(s: Seq<char>) -> bool {
    forall|i: int| 0 <= i < s.len() ==> is_hex(#[trigger] s[i])
}

/// One group of an IPv6 address: one to four hexadecimal digits.
pub open spec fn group(s: Seq<char>) -> Option<nat> {
    if 1 <= s.len() <= 4 && all_hex(s) {
        Some(hex_number(s))
    } else {
        None
    }
}

/// The groups of a list of parts.
pub open spec fn groups(p: Seq<Seq<char>>) -> Option<Seq<nat>>
    decreases p.len(),
{
    if p.len() == 0 {
        Some(Seq::empty())
    } else {
        match (groups(p.drop_last()), group(p.last())) {
            (Some(g), Some(n)) => Some(g.push(n)),
            _ => None,
        }
    }
}

/// The groups of a list of parts of which the last may be a dotted address,
/// which makes two groups.
pub open spec fn groups_with_v4(p: Seq<Seq<char>>) -> Option<Seq<nat>> {
    if p.len() == 0 {
        Some(Seq::empty())
    } else {
        match (groups(p.drop_last()), ipv4(p.last())) {
            (Some(g), Some(v)) => Some(g.push((v / 0x1_0000) as nat).push((v % 0x1_0000) as nat)),
            _ => groups(p),
        }
    }
}

/// The parts between colons; none of an empty text.
pub open spec fn colon_parts(s: Seq<char>) -> Seq<Seq<char>> {
    if s.len() == 0 {
        Seq::empty()
    } else {
        text::parts(s, ':')
    }
}

/// The position of the first pair of colons.
pub open spec fn double_colon(s: Seq<char>, from: int) -> Option<int>
    decreases s.len() - from,
{
    if from < 0 || from + 1 >= s.len() {
        None
    } else if s[from] == ':' && s[from + 1] == ':' {
        Some(from)
    } else {
        double_colon(s, from + 1)
    }
}

/// The address that eight groups denote.
pub open spec fn join_groups(g: Seq<nat>) -> nat
    decreases g.len(),
{
    if g.len() == 0 {
        0
    } else {
        0x1_0000 * join_groups(g.drop_last()) + g.last()
    }
}

/// An IPv6 address: eight groups, or fewer around one pair of colons that
/// stands for at least one group of zeros.
pub open spec fn ipv6(s: Seq<char>) -> Option<u128> {
    match double_colon(s, 0) {
        None => match groups_with_v4(text::parts(s, ':')) {
            Some(g) if g.len() == 8 => Some(join_groups(g) as u128),
            _ => None,
        },
        Some(k) => match (
            groups(colon_parts(s.take(k))),
            groups_with_v4(colon_parts(s.skip(k + 2))),
        ) {
            (Some(h), Some(t)) if h.len() + t.len() <= 7 => Some(
                join_groups(h + Seq::new((8 - h.len() - t.len()) as nat, |i: int| 0nat) + t) as u128,
            ),
            _ => None,
        },
    }
}

/// An address of either family.
pub open spec fn ip(s: Seq<char>) -> Option<IpAddr> {
    match ipv4(s) {
        Some(a) => Some(IpAddr::V4(a)),
        None => match ipv6(s) {
            Some(a) => Some(IpAddr::V6(a)),
            None => None,
        },
    }
}

fn parse_octet(s: &str) -> (r: Option<u32>)
    ensures
        (match r {
            Some(n) => octet(s@) == Some(n as nat) && n <= 255,
            None => octet(s@) is None,
        }),
{
    let chars = chars_of(s);
    if chars.len() == 0 || chars.len() > 3 {
        return None;
    }
    if chars.len() > 1 && chars[0] == '0' {
        return None;
    }
    if chars[0] == '+' {
        assert(!number::is_digit(s@[0]));
        return None;
    }
    match number::parse_unsigned_chars(&chars, 255) {
        Some(n) => Some(n as u32),
        None => None,
    }
}

/// Reads a dotted IPv4 address.
pub fn parse_ipv4(s: &str) -> (r: Option<u32>)
    ensures
        r == ipv4(s@),
{
    let p = text::split(s, '.');
    let ghost v = text::views(p@);
    if p.len() != 4 {
        return None;
    }
    assert(v[0] == p@[0]@ && v[1] == p@[1]@ && v[2] == p@[2]@ && v[3] == p@[3]@);
    match (
        parse_octet(p[0].as_str()),
        parse_octet(p[1].as_str()),
        parse_octet(p[2].as_str()),
        parse_octet(p[3].as_str()),
    ) {
        (Some(a), Some(b), Some(c), Some(d)) => Some(a * 0x100_0000 + b * 0x1_0000 + c * 0x100 + d),
        _ => None,
    }
}

/// Decides [`is_hex`] and gives the value of the digit.
pub fn hex_digit(c: char) -> (r: Option<u32>)
    ensures
        (match r {
            Some(n) => is_hex(c) && n == hex_value(c) && n < 16,
            None => !is_hex(c),
        }),
{
    if '0' <= c && c <= '9' {
        Some(c as u32 - '0' as u32)
    } else if 'a' <= c && c <= 'f' {
        Some(c as u32 - 'a' as u32 + 10)
    } else if 'A' <= c && c <= 'F' {
        Some(c as u32 - 'A' as u32 + 10)
    } else {
        None
    }
}

fn parse_group(s: &str) -> (r: Option<u32>)
    ensures
        (match r {
            Some(n) => group(s@) == Some(n as nat) && n <= 0xffff,
            None => group(s@) is None,
        }),
{
    let chars = chars_of(s);
    if chars.len() == 0 || chars.len() > 4 {
        return None;
    }
    let mut value: u32 = 0;
    let mut i: usize = 0;
    while i < chars.len()
        invariant
            i <= chars@.len() <= 4,
            chars@ == s@,
            value == hex_number(s@.take(i as int)),
            i == 0 ==> value == 0,
            i == 1 ==> value < 0x10,
            i == 2 ==> value < 0x100,
            i == 3 ==> value < 0x1000,
            i == 4 ==> value < 0x1_0000,
            forall|j: int| 0 <= j < i ==> is_hex(#[trigger] s@[j]),
        decreases chars@.len() - i,
    {
        assert(s@.take(i + 1).drop_last() == s@.take(i as int));
        match hex_digit(chars[i]) {
            Some(d) => {
                value = value * 16 + d;
            },
            None => {
                assert(!is_hex(s@[i as int]));
                return None;
            },
        }
        i += 1;
    }
    assert(s@.take(i as int) == s@);
    Some(value)
}

/// The groups fit in 16 bits each.
pub open spec fn small(g: Seq<nat>) -> bool {
    forall|i: int| 0 <= i < g.len() ==> #[trigger] g[i] <= 0xffff
}

fn parse_groups(p: &Vec<String>, n: usize) -> (r: Option<Vec<u32>>)
    requires
        n <= p@.len(),
    ensures
        (match r {
            Some(g) => groups(text::views(p@).take(n as int)) == Some(values(g@)) && small(
                values(g@),
            ),
            None => groups(text::views(p@).take(n as int)) is None,
        }),
{
    let ghost all = text::views(p@);
    let mut out: Vec<u32> = Vec::new();
    let mut i: usize = 0;
    assert(values(out@) =~= Seq::<nat>::empty());
    while i < n
        invariant
            i <= n <= p@.len(),
            all == text::views(p@),
            groups(all.take(i as int)) == Some(values(out@)),
            small(values(out@)),
        decreases n - i,
    {
        let ghost now = all.take(i + 1);
        assert(now.drop_last() == all.take(i as int));
        assert(now.last() == p@[i as int]@);
        match parse_group(p[i].as_str()) {
            Some(g) => {
                let ghost shown = values(out@).push(g as nat);
                out.push(g);
                assert(values(out@) =~= shown);
            },
            None => {
                proof {
                    lemma_groups_fail(all.take(n as int), i + 1);
                    assert(all.take(n as int).take(i + 1) == now);
                }
                return None;
            },
        }
        i += 1;
    }
    Some(out)
}

/// Numbers as mathematical integers.
pub open spec fn values(g: Seq<u32>) -> Seq<nat> {
    g.map_values(|x: u32| x as nat)
}

proof fn lemma_groups_fail(p: Seq<Seq<char>>, k: int)
    requires
        0 <= k <= p.len(),
        groups(p.take(k)) is None,
    ensures
        groups(p) is None,
    decreases p.len(),
{
    if k < p.len() {
        assert(p.drop_last().take(k) == p.take(k));
        lemma_groups_fail(p.drop_last(), k);
    } else {
        assert(p.take(k) == p);
    }
}

fn parse_groups_with_v4(p: &Vec<String>) -> (r: Option<Vec<u32>>)
    ensures
        (match r {
            Some(g) => groups_with_v4(text::views(p@)) == Some(values(g@)) && small(values(g@)),
            None => groups_with_v4(text::views(p@)) is None,
        }),
{
    let ghost all = text::views(p@);
    let n: usize = p.len();
    if n == 0 {
        let out: Vec<u32> = Vec::new();
        assert(values(out@) =~= Seq::<nat>::empty());
        return Some(out);
    }
    assert(all.drop_last() == all.take(n - 1));
    assert(all.last() == p@[n - 1]@);
    if let Some(v) = parse_ipv4(p[n - 1].as_str()) {
        if let Some(g) = parse_groups(p, n - 1) {
            let mut g = g;
            let ghost shown = values(g@).push((v / 0x1_0000) as nat).push((v % 0x1_0000) as nat);
            g.push(v / 0x1_0000);
            g.push(v % 0x1_0000);
            assert(values(g@) =~= shown);
            return Some(g);
        }
    }
    assert(all.take(n as int) == all);
    parse_groups(p, n)
}

fn parse_colon_parts(s: &str) -> (p: Vec<String>)
    ensures
        text::views(p@) == colon_parts(s@),
{
    if s.is_empty() {
        let p: Vec<String> = Vec::new();
        assert(text::views(p@) =~= Seq::<Seq<char>>::empty());
        p
    } else {
        text::split(s, ':')
    }
}

proof fn lemma_join_bound(g: Seq<nat>)
    requires
        small(g),
        g.len() <= 8,
    ensures
        g.len() == 0 ==> join_groups(g) == 0,
        g.len() == 1 ==> join_groups(g) < 0x1_0000,
        g.len() == 2 ==> join_groups(g) < 0x1_0000_0000,
        g.len() == 3 ==> join_groups(g) < 0x1_0000_0000_0000,
        g.len() == 4 ==> join_groups(g) < 0x1_0000_0000_0000_0000,
        g.len() == 5 ==> join_groups(g) < 0x1_0000_0000_0000_0000_0000,
        g.len() == 6 ==> join_groups(g) < 0x1_0000_0000_0000_0000_0000_0000,
        g.len() == 7 ==> join_groups(g) < 0x1_0000_0000_0000_0000_0000_0000_0000,
        g.len() == 8 ==> join_groups(g) <= 0xffff_ffff_ffff_ffff_ffff_ffff_ffff_ffff,
    decreases g.len(),
{
    if g.len() > 0 {
        assert(small(g.drop_last())) by {
            assert forall|i: int| 0 <= i < g.len() - 1 implies #[trigger] g.drop_last()[i]
                <= 0xffff by {
                assert(g[i] <= 0xffff);
            }
        }
        assert(g[g.len() - 1] <= 0xffff);
        lemma_join_bound(g.drop_last());
    }
}

fn join(g: &Vec<u32>) -> (r: u128)
    requires
        g@.len() == 8,
        small(values(g@)),
    ensures
        r == join_groups(values(g@)) as u128,
        r == join_groups(values(g@)),
{
    let ghost all = values(g@);
    let mut r: u128 = 0;
    let mut i: usize = 0;
    while i < 8
        invariant
            i <= 8,
            g@.len() == 8,
            all == values(g@),
            small(all),
            r == join_groups(all.take(i as int)),
        decreases 8 - i,
    {
        let ghost now = all.take(i + 1);
        proof {
            assert(now.drop_last() == all.take(i as int));
            assert(now.last() == g@[i as int]);
            assert forall|k: int| 0 <= k < now.len() implies #[trigger] now[k] <= 0xffff by {
                assert(all[k] <= 0xffff);
            }
            lemma_join_bound(now);
        }
        r = r * 0x1_0000 + g[i] as u128;
        i += 1;
    }
    assert(all.take(8) == all);
    r
}

fn find_double_colon(chars: &Vec<char>) -> (r: Option<usize>)
    ensures
        (match r {
            Some(k) => double_colon(chars@, 0) == Some(k as int) && k + 2 <= chars@.len(),
            None => double_colon(chars@, 0) is None,
        }),
{
    let n: usize = chars.len();
    let mut i: usize = 0;
    while i < n && n - i >= 2
        invariant
            n == chars@.len(),
            i <= n,
            double_colon(chars@, 0) == double_colon(chars@, i as int),
        decreases n - i,
    {
        if chars[i] == ':' && chars[i + 1] == ':' {
            return Some(i);
        }
        i += 1;
    }
    None
}

/// Reads an IPv6 address.
pub fn parse_ipv6(s: &str) -> (r: Option<u128>)
    ensures
        r == ipv6(s@),
{
    let chars = chars_of(s);
    match find_double_colon(&chars) {
        None => {
            let p = text::split(s, ':');
            match parse_groups_with_v4(&p) {
                Some(g) => {
                    if g.len() == 8 {
                        Some(join(&g))
                    } else {
                        None
                    }
                },
                None => None,
            }
        },
        Some(k) => {
            let head = text::string_range(&chars, 0, k);
            let tail = text::string_range(&chars, k + 2, chars.len());
            assert(head@ == s@.take(k as int));
            assert(tail@ == s@.skip(k + 2));
            let hp = parse_colon_parts(head.as_str());
            let tp = parse_colon_parts(tail.as_str());
            assert(text::views(hp@).take(hp@.len() as int) == text::views(hp@));
            match (parse_groups(&hp, hp.len()), parse_groups_with_v4(&tp)) {
                (Some(h), Some(t)) => {
                    if h.len() > 7 || t.len() > 7 - h.len() {
                        return None;
                    }
                    let ghost zeros = Seq::new((8 - h@.len() - t@.len()) as nat, |i: int| 0nat);
                    let ghost want = values(h@) + zeros + values(t@);
                    let mut g: Vec<u32> = Vec::new();
                    let mut i: usize = 0;
                    while i < 8
                        invariant
                            i <= 8,
                            g@.len() == i,
                            h@.len() + t@.len() <= 7,
                            small(values(h@)),
                            small(values(t@)),
                            zeros == Seq::new((8 - h@.len() - t@.len()) as nat, |i: int| 0nat),
                            want == values(h@) + zeros + values(t@),
                            forall|j: int| 0 <= j < i ==> #[trigger] g@[j] == want[j],
                            forall|j: int| 0 <= j < i ==> #[trigger] g@[j] <= 0xffff,
                        decreases 8 - i,
                    {
                        let x: u32 = if i < h.len() {
                            assert(values(h@)[i as int] == h@[i as int]);
                            h[i]
                        } else if i < 8 - t.len() {
                            0
                        } else {
                            let k: usize = i - (8 - t.len());
                            assert(values(t@)[k as int] == t@[k as int]);
                            t[k]
                        };
                        g.push(x);
                        i += 1;
                    }
                    assert(values(g@) =~= want);
                    Some(join(&g))
                },
                _ => None,
            }
        },
    }
}

/// Reads an address of either family.
pub fn parse_ip(s: &str) -> (r: Option<IpAddr>)
    ensures
        r == ip(s@),
{
    match parse_ipv4(s) {
        Some(a) => Some(IpAddr::V4(a)),
        None => match parse_ipv6(s) {
            Some(a) => Some(IpAddr::V6(a)),
            None => None,
        },
    }
}

/// A decimal number without a sign.
pub open spec fn plain_number(s: Seq<char>, max: nat) -> Option<nat> {
    if s.len() > 0 && number::all_digits(s) && number::digits_value(s) <= max {
        Some(number::digits_value(s))
    } else {
        None
    }
}

/// A dotted address, a colon and a port.
pub open spec fn socket_v4(s: Seq<char>) -> Option<SocketAddr> {
    match text::find(s, ':') {
        None => None,
        Some(k) => match (ipv4(s.take(k)), plain_number(s.skip(k + 1), 65535)) {
            (Some(a), Some(p)) => Some(
                SocketAddr { ip: IpAddr::V4(a), port: p as u16, scope: 0 },
            ),
            _ => None,
        },
    }
}

/// What stands between the brackets: an IPv6 address with an optional scope.
pub open spec fn scoped_v6(s: Seq<char>) -> Option<(u128, nat)> {
    match text::find(s, '%') {
        None => match ipv6(s) {
            Some(a) => Some((a, 0)),
            None => None,
        },
        Some(k) => match (ipv6(s.take(k)), plain_number(s.skip(k + 1), u32::MAX as nat)) {
            (Some(a), Some(z)) => Some((a, z)),
            _ => None,
        },
    }
}

/// A bracketed IPv6 address, a colon and a port.
pub open spec fn socket_v6(s: Seq<char>) -> Option<SocketAddr> {
    match text::find(s, ']') {
        None => None,
        Some(k) => if s[0] == '[' && k >= 1 && k + 1 < s.len() && s[k + 1] == ':' {
            match (scoped_v6(s.subrange(1, k)), plain_number(s.skip(k + 2), 65535)) {
                (Some((a, z)), Some(p)) => Some(
                    SocketAddr { ip: IpAddr::V6(a), port: p as u16, scope: z as u32 },
                ),
                _ => None,
            }
        } else {
            None
        },
    }
}

/// An address of either family with a port.
pub open spec fn socket(s: Seq<char>) -> Option<SocketAddr> {
    match socket_v4(s) {
        Some(a) => Some(a),
        None => socket_v6(s),
    }
}

/// Reads a decimal number without a sign.
pub fn parse_plain(chars: &Vec<char>, lo: usize, max: u64) -> (r: Option<u64>)
    requires
        lo <= chars@.len(),
    ensures
        (match r {
            Some(n) => plain_number(chars@.skip(lo as int), max as nat) == Some(n as nat),
            None => plain_number(chars@.skip(lo as int), max as nat) is None,
        }),
{
    let s = text::string_range(chars, lo, chars.len());
    assert(s@ == chars@.skip(lo as int));
    let digits = chars_of(s.as_str());
    if digits.len() > 0 && digits[0] == '+' {
        assert(!number::is_digit(s@[0]));
        return None;
    }
    number::parse_unsigned_chars(&digits, max)
}

fn parse_socket_v4(chars: &Vec<char>) -> (r: Option<SocketAddr>)
    ensures
        r == socket_v4(chars@),
{
    match text::find_char(chars, ':') {
        None => None,
        Some(k) => {
            let host = text::string_range(chars, 0, k);
            assert(host@ == chars@.take(k as int));
            match (parse_ipv4(host.as_str()), parse_plain(chars, k + 1, 65535)) {
                (Some(a), Some(p)) => Some(
                    SocketAddr { ip: IpAddr::V4(a), port: p as u16, scope: 0 },
                ),
                _ => None,
            }
        },
    }
}

fn parse_scoped_v6(chars: &Vec<char>) -> (r: Option<(u128, u32)>)
    ensures
        (match r {
            Some((a, z)) => scoped_v6(chars@) == Some((a, z as nat)),
            None => scoped_v6(chars@) is None,
        }),
{
    match text::find_char(chars, '%') {
        None => {
            let host = text::string_range(chars, 0, chars.len());
            assert(host@ == chars@);
            match parse_ipv6(host.as_str()) {
                Some(a) => Some((a, 0)),
                None => None,
            }
        },
        Some(k) => {
            let host = text::string_range(chars, 0, k);
            assert(host@ == chars@.take(k as int));
            match (parse_ipv6(host.as_str()), parse_plain(chars, k + 1, 0xffff_ffff)) {
                (Some(a), Some(z)) => Some((a, z as u32)),
                _ => None,
            }
        },
    }
}

fn parse_socket_v6(chars: &Vec<char>) -> (r: Option<SocketAddr>)
    ensures
        r == socket_v6(chars@),
{
    match text::find_char(chars, ']') {
        None => None,
        Some(k) => {
            let n: usize = chars.len();
            if chars[0] == '[' && k >= 1 && n - k >= 2 && chars[k + 1] == ':' {
                let inner = text::string_range(chars, 1, k);
                let inner_chars = chars_of(inner.as_str());
                assert(inner_chars@ == chars@.subrange(1, k as int));
                match (parse_scoped_v6(&inner_chars), parse_plain(chars, k + 2, 65535)) {
                    (Some((a, z)), Some(p)) => Some(
                        SocketAddr { ip: IpAddr::V6(a), port: p as u16, scope: z },
                    ),
                    _ => None,
                }
            } else {
                None
            }
        },
    }
}

/// Reads an address of either family with a port.
pub fn parse_socket(s: &str) -> (r: Option<SocketAddr>)
    ensures
        r == socket(s@),
{
    let chars = chars_of(s);
    match parse_socket_v4(&chars) {
        Some(a) => Some(a),
        None => parse_socket_v6(&chars),
    }
}

/// The dotted notation of an address.
pub open spec fn dotted(a: u32) -> Seq<char> {
    number::decimal((a / 0x100_0000) as nat) + "."@ + number::decimal(
        (a / 0x1_0000 % 256) as nat,
    ) + "."@ + number::decimal((a / 0x100 % 256) as nat) + "."@ + number::decimal(
        (a % 256) as nat,
    )
}

/// The eight groups of an address, or fewer of its last ones.
pub open spec fn split_groups(a: nat, n: nat) -> Seq<nat>
    decreases n,
{
    if n == 0 {
        Seq::empty()
    } else {
        split_groups(a / 0x1_0000, (n - 1) as nat).push(a % 0x1_0000)
    }
}

/// The hexadecimal digit of a value below 16.
pub open spec fn hex_char(n: nat) -> char {
    if n < 10 {
        number::digit_char(n)
    } else {
        (('a' as u32) + (n - 10)) as u32 as char
    }
}

/// The hexadecimal notation of a number.
pub open spec fn hex_text(n: nat) -> Seq<char>
    decreases n,
{
    if n < 16 {
        seq![hex_char(n)]
    } else {
        hex_text(n / 16).push(hex_char(n % 16))
    }
}

/// Groups in hexadecimal, with colons between them.
pub open spec fn colon_text(g: Seq<nat>) -> Seq<char>
    decreases g.len(),
{
    if g.len() == 0 {
        Seq::empty()
    } else if g.len() == 1 {
        hex_text(g[0])
    } else {
        colon_text(g.drop_last()) + ":"@ + hex_text(g.last())
    }
}

/// How many groups of zeros stand at a position.
pub open spec fn zeros_at(g: Seq<nat>, i: int) -> nat
    decreases g.len() - i,
{
    if i < 0 || i >= g.len() || g[i] != 0 {
        0
    } else {
        1 + zeros_at(g, i + 1)
    }
}

/// The start and length of the longest run of zeros from a position on, the
/// first of equals.
pub open spec fn longest_zeros(g: Seq<nat>, i: int) -> (int, nat)
    decreases g.len() - i,
{
    if i < 0 || i >= g.len() {
        (0, 0)
    } else {
        let later = longest_zeros(g, i + 1);
        if zeros_at(g, i) > 0 && zeros_at(g, i) >= later.1 {
            (i, zeros_at(g, i))
        } else {
            later
        }
    }
}

/// The notation of an IPv6 address: the longest run of two or more zero groups
/// is left out, and a mapped IPv4 address is dotted.
pub open spec fn ipv6_text(a: u128) -> Seq<char> {
    if a / 0x1_0000_0000 == 0xffff {
        "::ffff:"@ + dotted((a % 0x1_0000_0000) as u32)
    } else {
        let g = split_groups(a as nat, 8);
        let (start, len) = longest_zeros(g, 0);
        if len > 1 {
            colon_text(g.take(start)) + "::"@ + colon_text(g.skip(start + len))
        } else {
            colon_text(g)
        }
    }
}

/// The notation of an address.
pub open spec fn ip_text(ip: IpAddr) -> Seq<char> {
    match ip {
        IpAddr::V4(a) => dotted(a),
        IpAddr::V6(a) => ipv6_text(a),
    }
}

/// Writes an IPv4 address.
pub fn format_ipv4(a: u32) -> (s: String)
    ensures
        s@ == dotted(a),
{
    number::to_decimal((a / 0x100_0000) as u64).concat(".").concat(
        number::to_decimal((a / 0x1_0000 % 256) as u64).as_str(),
    ).concat(".").concat(number::to_decimal((a / 0x100 % 256) as u64).as_str()).concat(".").concat(
        number::to_decimal((a % 256) as u64).as_str(),
    )
}

fn to_hex(n: u32) -> (s: String)
    ensures
        s@ == hex_text(n as nat),
    decreases n,
{
    let mut s = if n < 16 {
        String::new()
    } else {
        to_hex(n / 16)
    };
    let d: u8 = (n % 16) as u8;
    if d < 10 {
        s.push((48 + d) as char);
    } else {
        s.push((97 + (d - 10)) as char);
    }
    s
}

fn to_groups(a: u128, n: usize) -> (g: Vec<u32>)
    ensures
        values(g@) == split_groups(a as nat, n as nat),
    decreases n,
{
    if n == 0 {
        let g: Vec<u32> = Vec::new();
        assert(values(g@) =~= Seq::<nat>::empty());
        g
    } else {
        let mut g = to_groups(a / 0x1_0000, n - 1);
        let ghost shown = values(g@).push((a % 0x1_0000) as nat);
        g.push((a % 0x1_0000) as u32);
        assert(values(g@) =~= shown);
        g
    }
}

fn to_colon_text(g: &Vec<u32>, lo: usize, hi: usize) -> (s: String)
    requires
        lo <= hi <= g@.len(),
    ensures
        s@ == colon_text(values(g@).subrange(lo as int, hi as int)),
{
    let ghost all = values(g@);
    let mut s = String::new();
    let mut i: usize = lo;
    while i < hi
        invariant
            lo <= i <= hi <= g@.len(),
            all == values(g@),
            s@ == colon_text(all.subrange(lo as int, i as int)),
        decreases hi - i,
    {
        let ghost now = all.subrange(lo as int, i + 1);
        assert(now.drop_last() == all.subrange(lo as int, i as int));
        assert(now.last() == g@[i as int]);
        let part = to_hex(g[i]);
        if i == lo {
            s = part;
        } else {
            s.append(":");
            s.append(part.as_str());
        }
        i += 1;
    }
    s
}

fn find_longest_zeros(g: &Vec<u32>) -> (r: (usize, usize))
    ensures
        longest_zeros(values(g@), 0) == (r.0 as int, r.1 as nat),
        r.0 + r.1 <= g@.len(),
{
    let ghost all = values(g@);
    let n: usize = g.len();
    let mut i: usize = n;
    let mut run: usize = 0;
    let mut start: usize = 0;
    let mut len: usize = 0;
    while i > 0
        invariant
            i <= g@.len() == n,
            all == values(g@),
            run == zeros_at(all, i as int),
            i + run <= g@.len(),
            (start as int, len as nat) == longest_zeros(all, i as int),
            start + len <= g@.len(),
        decreases i,
    {
        i -= 1;
        assert(all[i as int] == g@[i as int]);
        if g[i] == 0 {
            run += 1;
        } else {
            run = 0;
        }
        if run > 0 && run >= len {
            start = i;
            len = run;
        }
    }
    (start, len)
}

/// Writes an IPv6 address.
pub fn format_ipv6(a: u128) -> (s: String)
    ensures
        s@ == ipv6_text(a),
{
    if a / 0x1_0000_0000 == 0xffff {
        return "::ffff:".to_owned().concat(format_ipv4((a % 0x1_0000_0000) as u32).as_str());
    }
    let g = to_groups(a, 8);
    let ghost all = values(g@);
    proof {
        lemma_split_len(a as nat, 8);
    }
    let (start, len) = find_longest_zeros(&g);
    if len > 1 {
        assert(all.subrange(0, start as int) == all.take(start as int));
        assert(all.subrange(start + len, 8) == all.skip(start + len));
        to_colon_text(&g, 0, start).concat("::").concat(
            to_colon_text(&g, start + len, g.len()).as_str(),
        )
    } else {
        assert(all.subrange(0, 8) == all);
        to_colon_text(&g, 0, g.len())
    }
}

/// Writes an address.
pub fn format_ip(ip: IpAddr) -> (s: String)
    ensures
        s@ == ip_text(ip),
{
    match ip {
        IpAddr::V4(a) => format_ipv4(a),
        IpAddr::V6(a) => format_ipv6(a),
    }
}

proof fn lemma_split_len(a: nat, n: nat)
    ensures
        split_groups(a, n).len() == n,
    decreases n,
{
    if n > 0 {
        lemma_split_len(a / 0x1_0000, (n - 1) as nat);
    }
}

} // verus!
