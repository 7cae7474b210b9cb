//! Addresses are read back from their notation.

use crate::net;
use crate::net::IpAddr;
use crate::number;
use crate::text;
use vstd::prelude::*;
use vstd::string::*;

verus! {

proof fn lemma_octet(n: nat)
    requires
        n <= 255,
    ensures
        net::octet(number::decimal(n)) == Some(n),
        !number::decimal(n).contains('.'),
        !number::decimal(n).contains(':'),
{
    let d = number::decimal(n);
    number::lemma_decimal(n);
    assert(d.len() <= 3) by {
        reveal_with_fuel(number::decimal, 4);
    }
    if n == 0 {
        assert(d.len() == 1);
    }
    assert forall|i: int| 0 <= i < d.len() implies d[i] != '.' && d[i] != ':' by {
        assert(number::is_digit(d[i]));
    }
}

/// The parts of a dotted address, with a text before its first number.
proof fn lemma_dotted_parts(before: Seq<char>, a: u32)
    requires
        !before.contains('.'),
    ensures
        text::parts(before + net::dotted(a), '.') == seq![
            before + number::decimal((a / 0x100_0000) as nat),
            number::decimal((a / 0x1_0000 % 256) as nat),
            number::decimal((a / 0x100 % 256) as nat),
            number::decimal((a % 256) as nat),
        ],
{
    let w = number::decimal((a / 0x100_0000) as nat);
    let x = number::decimal((a / 0x1_0000 % 256) as nat);
    let y = number::decimal((a / 0x100 % 256) as nat);
    let z = number::decimal((a % 256) as nat);
    lemma_octet((a / 0x100_0000) as nat);
    lemma_octet((a / 0x1_0000 % 256) as nat);
    lemma_octet((a / 0x100 % 256) as nat);
    lemma_octet((a % 256) as nat);
    reveal_strlit(".");
    assert("."@ =~= seq!['.']);
    let first = before + w;
    assert forall|i: int| 0 <= i < first.len() implies first[i] != '.' by {
        if i < before.len() {
            assert(first[i] == before[i]);
        } else {
            assert(first[i] == w[i - before.len()]);
        }
    }
    text::lemma_one_part(first, '.');
    text::lemma_one_part(x, '.');
    text::lemma_one_part(y, '.');
    text::lemma_one_part(z, '.');
    text::lemma_parts_of_two(first, x, '.');
    text::lemma_parts_of_two(first + seq!['.'] + x, y, '.');
    text::lemma_parts_of_two(first + seq!['.'] + x + seq!['.'] + y, z, '.');
    assert(before + net::dotted(a) =~= first + seq!['.'] + x + seq!['.'] + y + seq!['.'] + z);
    assert(seq![first] + seq![x] + seq![y] + seq![z] =~= seq![first, x, y, z]);
}

/// An IPv4 address is read back from its notation.
pub proof fn law_dotted_addresses_are_read_back(a: u32)
    ensures
        net::ipv4(net::dotted(a)) == Some(a),
        net::ip(net::dotted(a)) == Some(IpAddr::V4(a)),
{
    let none = Seq::<char>::empty();
    lemma_dotted_parts(none, a);
    assert(none + net::dotted(a) =~= net::dotted(a));
    assert(none + number::decimal((a / 0x100_0000) as nat) =~= number::decimal(
        (a / 0x100_0000) as nat,
    ));
    lemma_octet((a / 0x100_0000) as nat);
    lemma_octet((a / 0x1_0000 % 256) as nat);
    lemma_octet((a / 0x100 % 256) as nat);
    lemma_octet((a % 256) as nat);
    let w = a / 0x100_0000;
    let x = a / 0x1_0000 % 256;
    let y = a / 0x100 % 256;
    let z = a % 256;
    assert(w * 0x100_0000 + x * 0x1_0000 + y * 0x100 + z == a) by (bit_vector)
        requires
            w == a / 0x100_0000u32,
            x == a / 0x1_0000u32 % 256u32,
            y == a / 0x100u32 % 256u32,
            z == a % 256u32,
    ;
}

pub(crate) proof fn lemma_hex(n: nat)
    ensures
        net::hex_text(n).len() > 0,
        net::all_hex(net::hex_text(n)),
        net::hex_number(net::hex_text(n)) == n,
    decreases n,
{
    if n < 16 {
        assert(net::hex_text(n).drop_last() =~= Seq::empty());
        assert(net::hex_number(net::hex_text(n).drop_last()) == 0);
    } else {
        lemma_hex(n / 16);
        assert(net::hex_text(n).drop_last() =~= net::hex_text(n / 16));
    }
}

pub(crate) proof fn lemma_group(n: nat)
    requires
        n <= 0xffff,
    ensures
        net::group(net::hex_text(n)) == Some(n),
        !net::hex_text(n).contains(':'),
        !net::hex_text(n).contains('.'),
{
    let h = net::hex_text(n);
    lemma_hex(n);
    assert(h.len() <= 4) by {
        reveal_with_fuel(net::hex_text, 5);
    }
    assert forall|i: int| 0 <= i < h.len() implies h[i] != '.' && h[i] != ':' by {
        assert(net::is_hex(h[i]));
    }
}

/// The notations of groups.
pub open spec fn hex_texts(g: Seq<nat>) -> Seq<Seq<char>> {
    g.map_values(|n: nat| net::hex_text(n))
}

pub(crate) proof fn lemma_groups(g: Seq<nat>)
    requires
        net::small(g),
    ensures
        net::groups(hex_texts(g)) == Some(g),
    decreases g.len(),
{
    if g.len() > 0 {
        let f = g.drop_last();
        assert forall|i: int| 0 <= i < f.len() implies #[trigger] f[i] <= 0xffff by {
            assert(g[i] == f[i]);
        }
        lemma_groups(f);
        assert(g[g.len() - 1] == g.last());
        lemma_group(g.last());
        assert(hex_texts(g).drop_last() =~= hex_texts(f));
        assert(f.push(g.last()) =~= g);
    } else {
        assert(g =~= Seq::empty());
    }
}

/// A text without dots is no dotted address.
proof fn lemma_undotted(s: Seq<char>)
    requires
        !s.contains('.'),
    ensures
        net::ipv4(s) is None,
{
    text::lemma_one_part(s, '.');
}

pub(crate) proof fn lemma_groups_with_v4(g: Seq<nat>)
    requires
        net::small(g),
    ensures
        net::groups_with_v4(hex_texts(g)) == Some(g),
{
    lemma_groups(g);
    if g.len() > 0 {
        assert(g[g.len() - 1] == g.last());
        lemma_group(g.last());
        lemma_undotted(net::hex_text(g.last()));
    } else {
        assert(g =~= Seq::empty());
    }
}

/// Whether a text has no dot, and each of its colons has another character behind it.
pub open spec fn spaced(s: Seq<char>) -> bool {
    &&& !s.contains('.')
    &&& forall|i: int| 0 <= i < s.len() && #[trigger] s[i] == ':' ==> i + 1 < s.len() && s[i + 1] != ':'
}

pub(crate) proof fn lemma_colon_text(g: Seq<nat>)
    requires
        net::small(g),
    ensures
        spaced(net::colon_text(g)),
        g.len() > 0 ==> net::colon_text(g).len() > 0 && net::colon_text(g)[0] != ':',
        net::colon_parts(net::colon_text(g)) == hex_texts(g),
        g.len() > 0 ==> text::parts(net::colon_text(g), ':') == hex_texts(g),
    decreases g.len(),
{
    let s = net::colon_text(g);
    if g.len() == 0 {
        assert(hex_texts(g) =~= Seq::empty());
    } else {
        assert(g[g.len() - 1] == g.last());
        lemma_group(g.last());
        lemma_hex(g.last());
        let h = net::hex_text(g.last());
        text::lemma_one_part(h, ':');
        if g.len() == 1 {
            assert(g[0] == g.last());
            assert(hex_texts(g) =~= seq![h]);
            assert(!s.contains(':'));
            assert(h[0] != ':');
        } else {
            let f = g.drop_last();
            assert forall|i: int| 0 <= i < f.len() implies #[trigger] f[i] <= 0xffff by {
                assert(g[i] == f[i]);
            }
            lemma_colon_text(f);
            let before = net::colon_text(f);
            reveal_strlit(":");
            assert(":"@ =~= seq![':']);
            text::lemma_parts_of_two(before, h, ':');
            assert(hex_texts(g) =~= hex_texts(f) + seq![h]);
            assert(s =~= before + seq![':'] + h);
            assert(h[0] != ':');
            let n = before.len();
            assert forall|i: int| 0 <= i < s.len() && #[trigger] s[i] == ':' implies i + 1 < s.len()
                && s[i + 1] != ':' by {
                if i < n {
                    assert(s[i] == before[i]);
                    assert(s[i + 1] == before[i + 1]);
                } else if i == n {
                    assert(s[i + 1] == h[0]);
                } else {
                    assert(s[i] == h[i - n - 1]);
                }
            }
            assert forall|i: int| 0 <= i < s.len() implies s[i] != '.' by {
                if i < n {
                    assert(s[i] == before[i]);
                } else if i > n {
                    assert(s[i] == h[i - n - 1]);
                }
            }
        }
    }
}

/// No pair of colons stands in a spaced text.
pub(crate) proof fn lemma_no_pair(s: Seq<char>, from: int)
    requires
        spaced(s),
        0 <= from,
    ensures
        net::double_colon(s, from) is None,
    decreases s.len() - from,
{
    if from + 1 < s.len() {
        lemma_no_pair(s, from + 1);
    }
}

/// The first pair of colons stands behind a spaced text.
pub(crate) proof fn lemma_first_pair(before: Seq<char>, behind: Seq<char>, from: int)
    requires
        spaced(before),
        0 <= from <= before.len(),
    ensures
        net::double_colon(before + seq![':', ':'] + behind, from) == Some(before.len() as int),
    decreases before.len() - from,
{
    let s = before + seq![':', ':'] + behind;
    let n = before.len() as int;
    assert(s[n] == ':' && s[n + 1] == ':');
    if from < n {
        assert(s[from] == before[from]);
        if s[from] == ':' {
            assert(s[from + 1] == before[from + 1]);
        }
        lemma_first_pair(before, behind, from + 1);
    }
}

/// How many addresses have this many groups.
pub open spec fn room(n: nat) -> nat
    decreases n,
{
    if n == 0 {
        1
    } else {
        0x1_0000 * room((n - 1) as nat)
    }
}

pub(crate) proof fn lemma_split(a: nat, n: nat)
    requires
        a < room(n),
    ensures
        net::split_groups(a, n).len() == n,
        net::small(net::split_groups(a, n)),
        net::join_groups(net::split_groups(a, n)) == a,
    decreases n,
{
    let g = net::split_groups(a, n);
    if n > 0 {
        lemma_split(a / 0x1_0000, (n - 1) as nat);
        assert(g.drop_last() =~= net::split_groups(a / 0x1_0000, (n - 1) as nat));
        assert forall|i: int| 0 <= i < g.len() implies #[trigger] g[i] <= 0xffff by {
            if i < n - 1 {
                assert(g[i] == g.drop_last()[i]);
            }
        }
    }
}

proof fn lemma_zeros(g: Seq<nat>, i: int)
    requires
        0 <= i,
    ensures
        i + net::zeros_at(g, i) <= g.len() || net::zeros_at(g, i) == 0,
        forall|j: int| i <= j < i + net::zeros_at(g, i) ==> #[trigger] g[j] == 0,
    decreases g.len() - i,
{
    if i < g.len() && g[i] == 0 {
        lemma_zeros(g, i + 1);
        assert forall|j: int| i <= j < i + net::zeros_at(g, i) implies #[trigger] g[j] == 0 by {
            if j > i {
                assert(i + 1 <= j < i + 1 + net::zeros_at(g, i + 1));
            }
        }
    }
}

pub(crate) proof fn lemma_longest(g: Seq<nat>, i: int)
    requires
        0 <= i,
    ensures
        ({
            let (start, len) = net::longest_zeros(g, i);
            &&& 0 <= start
            &&& start + len <= g.len()
            &&& forall|j: int| start <= j < start + len ==> #[trigger] g[j] == 0
        }),
    decreases g.len() - i,
{
    if i < g.len() {
        lemma_longest(g, i + 1);
        lemma_zeros(g, i);
    }
}

pub(crate) proof fn lemma_no_colon(v: u32)
    ensures
        !net::dotted(v).contains(':'),
{
    let d = net::dotted(v);
    lemma_octet((v / 0x100_0000) as nat);
    lemma_octet((v / 0x1_0000 % 256) as nat);
    lemma_octet((v / 0x100 % 256) as nat);
    lemma_octet((v % 256) as nat);
    reveal_strlit(".");
    let w = number::decimal((v / 0x100_0000) as nat);
    let x = number::decimal((v / 0x1_0000 % 256) as nat);
    let y = number::decimal((v / 0x100 % 256) as nat);
    let z = number::decimal((v % 256) as nat);
    let wx = w + "."@ + x;
    let wxy = wx + "."@ + y;
    assert(d =~= wxy + "."@ + z);
    assert forall|i: int| 0 <= i < wx.len() implies wx[i] != ':' by {
        if i < w.len() {
            assert(wx[i] == w[i]);
        } else if i > w.len() {
            assert(wx[i] == x[i - w.len() - 1]);
        }
    }
    assert forall|i: int| 0 <= i < wxy.len() implies wxy[i] != ':' by {
        if i < wx.len() {
            assert(wxy[i] == wx[i]);
        } else if i > wx.len() {
            assert(wxy[i] == y[i - wx.len() - 1]);
        }
    }
    assert forall|i: int| 0 <= i < d.len() implies d[i] != ':' by {
        if i < wxy.len() {
            assert(d[i] == wxy[i]);
        } else if i > wxy.len() {
            assert(d[i] == z[i - wxy.len() - 1]);
        }
    }
}

proof fn lemma_mapped(a: u128)
    requires
        a / 0x1_0000_0000 == 0xffff,
    ensures
        net::ipv4(net::ipv6_text(a)) is None,
        net::ipv6(net::ipv6_text(a)) == Some(a),
{
    let v = (a % 0x1_0000_0000) as u32;
    let d = net::dotted(v);
    let s = net::ipv6_text(a);
    reveal_strlit("::ffff:");
    let ffff = seq!['f', 'f', 'f', 'f'];
    let prefix = seq![':', ':'] + ffff + seq![':'];
    assert("::ffff:"@ =~= prefix);
    assert(!prefix.contains('.'));
    lemma_dotted_parts(prefix, v);
    let first = text::parts(s, '.')[0];
    assert(first[0] == ':');
    assert(!number::is_digit(first[0]));
    assert(net::octet(first) is None);

    let tail = ffff + seq![':'] + d;
    assert(s.take(0) =~= Seq::empty());
    assert(s.skip(2) =~= tail);
    assert(!ffff.contains(':'));
    lemma_no_colon(v);
    text::lemma_one_part(ffff, ':');
    text::lemma_one_part(d, ':');
    text::lemma_parts_of_two(ffff, d, ':');
    let p = seq![ffff, d];
    assert(seq![ffff] + seq![d] =~= p);
    assert(net::group(ffff) == Some(0xffffnat)) by {
        reveal_with_fuel(net::hex_number, 5);
        assert(ffff.drop_last() =~= seq!['f', 'f', 'f']);
        assert(ffff.drop_last().drop_last() =~= seq!['f', 'f']);
        assert(ffff.drop_last().drop_last().drop_last() =~= seq!['f']);
        assert(ffff.drop_last().drop_last().drop_last().drop_last() =~= Seq::empty());
    }
    assert(p.drop_last() =~= seq![ffff]);
    assert(seq![ffff].drop_last() =~= Seq::<Seq<char>>::empty());
    assert(net::groups(Seq::<Seq<char>>::empty()) == Some(Seq::<nat>::empty()));
    let one = Seq::<nat>::empty().push(0xffff);
    assert(net::groups(seq![ffff]) == Some(one));
    law_dotted_addresses_are_read_back(v);
    let t = one.push((v / 0x1_0000) as nat).push((v % 0x1_0000) as nat);
    assert(net::groups_with_v4(p) == Some(t));
    assert(s[0] == ':' && s[1] == ':');
    assert(net::double_colon(s, 0) == Some(0int));
    let none = Seq::<nat>::empty();
    let zeros = Seq::new(5, |i: int| 0nat);
    let all = none + zeros + t;
    assert(all.drop_last().drop_last().drop_last() =~= zeros);
    assert(net::join_groups(zeros) == 0) by {
        reveal_with_fuel(net::join_groups, 6);
    }
    assert(net::join_groups(all.drop_last().drop_last()) == 0xffff);
    assert(net::join_groups(all.drop_last()) == 0xffff * 0x1_0000 + v / 0x1_0000);
    assert(net::join_groups(all) == a);
}

/// An IPv6 address is read back from its notation.
#[verifier::rlimit(60)]
pub proof fn law_addresses_with_colons_are_read_back(a: u128)
    ensures
        net::ipv6(net::ipv6_text(a)) == Some(a),
        net::ip(net::ipv6_text(a)) == Some(IpAddr::V6(a)),
{
    if a / 0x1_0000_0000 == 0xffff {
        lemma_mapped(a);
        return;
    }
    let s = net::ipv6_text(a);
    let g = net::split_groups(a as nat, 8);
    assert(a < room(8)) by {
        reveal_with_fuel(room, 9);
    }
    lemma_split(a as nat, 8);
    lemma_longest(g, 0);
    let (start, len) = net::longest_zeros(g, 0);
    if len > 1 {
        let h = g.take(start);
        let t = g.skip(start + len);
        assert forall|i: int| 0 <= i < h.len() implies #[trigger] h[i] <= 0xffff by {
            assert(h[i] == g[i]);
        }
        assert forall|i: int| 0 <= i < t.len() implies #[trigger] t[i] <= 0xffff by {
            assert(t[i] == g[i + start + len]);
        }
        lemma_colon_text(h);
        lemma_colon_text(t);
        let before = net::colon_text(h);
        let behind = net::colon_text(t);
        reveal_strlit("::");
        assert("::"@ =~= seq![':', ':']);
        assert(s =~= before + seq![':', ':'] + behind);
        lemma_first_pair(before, behind, 0);
        let k = before.len() as int;
        assert(s.take(k) =~= before);
        assert(s.skip(k + 2) =~= behind);
        lemma_groups(h);
        lemma_groups_with_v4(t);
        let zeros = Seq::new((8 - h.len() - t.len()) as nat, |i: int| 0nat);
        assert(h + zeros + t =~= g) by {
            assert forall|i: int| 0 <= i < 8 implies #[trigger] (h + zeros + t)[i] == g[i] by {
                if start <= i < start + len {
                    assert(g[i] == 0);
                }
            }
        }
        assert forall|i: int| 0 <= i < s.len() implies s[i] != '.' by {
            if i < k {
                assert(s[i] == before[i]);
            } else if i >= k + 2 {
                assert(s[i] == behind[i - k - 2]);
            }
        }
        lemma_undotted(s);
    } else {
        lemma_colon_text(g);
        lemma_no_pair(s, 0);
        lemma_groups_with_v4(g);
        lemma_undotted(s);
    }
}

/// An address of either family is read back from its notation.
pub proof fn law_addresses_are_read_back(ip: IpAddr)
    ensures
        net::ip(net::ip_text(ip)) == Some(ip),
{
    match ip {
        IpAddr::V4(a) => law_dotted_addresses_are_read_back(a),
        IpAddr::V6(a) => law_addresses_with_colons_are_read_back(a),
    }
}

} // verus!
