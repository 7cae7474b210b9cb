//! What holds of the notation of addresses and of sockets.

use crate::net;
use crate::net::{IpAddr, SocketAddr};
use crate::net_laws;
use crate::number;
use crate::text;
use crate::text_laws;
use vstd::prelude::*;
use vstd::string::*;

verus! {

proof fn lemma_decimal_unique(s: Seq<char>)
    requires
        s.len() > 0,
        number::all_digits(s),
        s.len() > 1 ==> s[0] != '0',
    ensures
        number::decimal(number::digits_value(s)) == s,
    decreases s.len(),
{
    let r = s.drop_last();
    assert(number::is_digit(s[s.len() - 1]));
    let v = number::digits_value(r);
    let d = number::digit_value(s.last());
    assert(number::digit_char(d) == s.last());
    if s.len() == 1 {
        assert(r =~= Seq::empty());
        assert(v == 0);
        assert(number::decimal(d) =~= s);
    } else {
        assert(number::all_digits(r)) by {
            assert forall|i: int| 0 <= i < r.len() implies number::is_digit(#[trigger] r[i]) by {
                assert(r[i] == s[i]);
            }
        }
        assert(r[0] == s[0]);
        lemma_decimal_unique(r);
        if v == 0 {
            assert(number::decimal(0)[0] == '0');
        }
        assert((10 * v + d) / 10 == v && (10 * v + d) % 10 == d);
        assert(number::decimal(10 * v + d) =~= r.push(s.last()));
        assert(r.push(s.last()) =~= s);
    }
}

proof fn lemma_four_joined(p: Seq<Seq<char>>)
    requires
        p.len() == 4,
    ensures
        text::joined(p, seq!['.']) == p[0] + seq!['.'] + p[1] + seq!['.'] + p[2] + seq!['.'] + p[3],
{
    let q = p.drop_last();
    let r = q.drop_last();
    let o = r.drop_last();
    assert(o =~= seq![p[0]]);
    assert(text::joined(o, seq!['.']) =~= p[0]);
    assert(text::joined(r, seq!['.']) =~= p[0] + seq!['.'] + p[1]);
    assert(text::joined(q, seq!['.']) =~= p[0] + seq!['.'] + p[1] + seq!['.'] + p[2]);
}

proof fn lemma_four_bytes(w: nat, x: nat, y: nat, z: nat, a: u32)
    requires
        w <= 255,
        x <= 255,
        y <= 255,
        z <= 255,
        a == (w * 0x100_0000 + x * 0x1_0000 + y * 0x100 + z) as u32,
    ensures
        a / 0x100_0000 == w,
        a / 0x1_0000 % 256 == x,
        a / 0x100 % 256 == y,
        a % 256 == z,
{
    let n: nat = w * 0x100_0000 + x * 0x1_0000 + y * 0x100 + z;
    lemma_divided(w * 0x1_0000 + x * 0x100 + y, z, 0x100);
    lemma_divided(w * 0x100 + x, y * 0x100 + z, 0x1_0000);
    lemma_divided(w, x * 0x1_0000 + y * 0x100 + z, 0x100_0000);
    lemma_divided(w * 0x100 + x, y, 0x100);
    lemma_divided(w, x, 0x100);
    assert(a == n);
}

proof fn lemma_divided(q: nat, r: nat, d: nat)
    requires
        0 <= r < d,
    ensures
        (q * d + r) / d == q,
        (q * d + r) % d == r,
{
    assert((q * d + r) / d == q && (q * d + r) % d == r) by (nonlinear_arith)
        requires
            0 <= r < d,
    ;
}

/// Only the notation of an IPv4 address is read as one: four numbers below 256 between
/// dots, without leading zeros, and nothing else.
pub proof fn law_only_dotted_texts_are_addresses(s: Seq<char>, a: u32)
    ensures
        net::ipv4(s) == Some(a) <==> s == net::dotted(a),
{
    net_laws::law_dotted_addresses_are_read_back(a);
    if net::ipv4(s) == Some(a) {
        let p = text::parts(s, '.');
        lemma_decimal_unique(p[0]);
        lemma_decimal_unique(p[1]);
        lemma_decimal_unique(p[2]);
        lemma_decimal_unique(p[3]);
        text_laws::law_join_undoes_split(s, '.');
        lemma_four_joined(p);
        lemma_four_bytes(
            net::octet(p[0])->0,
            net::octet(p[1])->0,
            net::octet(p[2])->0,
            net::octet(p[3])->0,
            a,
        );
        reveal_strlit(".");
        assert("."@ =~= seq!['.']);
    }
}

proof fn lemma_found(before: Seq<char>, c: char, behind: Seq<char>)
    requires
        !before.contains(c),
    ensures
        text::find(before.push(c) + behind, c) == Some(before.len() as int),
{
    let s = before.push(c) + behind;
    let n = before.len() as int;
    text_laws::law_the_first_place_is_found(s, c);
    assert(s[n] == c);
    if text::find(s, c) is None {
        assert(s.contains(s[n]));
    }
    let k = text::find(s, c)->0;
    if k < n {
        assert(s[k] == before[k]);
        assert(before.contains(c));
    }
    if k > n {
        assert(s.take(k)[n] == c);
        assert(s.take(k).contains(c));
    }
}

proof fn lemma_plain_number(n: nat, max: nat)
    ensures
        n <= max ==> net::plain_number(number::decimal(n), max) == Some(n),
        n > max ==> net::plain_number(number::decimal(n), max) is None,
{
    number::lemma_decimal(n);
}

/// An IPv4 address with a port is read back from its notation; a port above 65535 is none.
pub proof fn law_sockets_are_read_back(a: u32, p: u16, n: nat)
    ensures
        net::socket(net::dotted(a).push(':') + number::decimal(p as nat)) == Some(
            SocketAddr { ip: IpAddr::V4(a), port: p, scope: 0 },
        ),
        n > 65535 ==> net::socket_v4(net::dotted(a).push(':') + number::decimal(n)) is None,
        net::socket(net::dotted(a)) is None,
{
    let d = net::dotted(a);
    net_laws::lemma_no_colon(a);
    net_laws::law_dotted_addresses_are_read_back(a);
    lemma_plain_number(p as nat, 65535);
    lemma_plain_number(n, 65535);
    let s = d.push(':') + number::decimal(p as nat);
    lemma_found(d, ':', number::decimal(p as nat));
    assert(s.take(d.len() as int) =~= d);
    assert(s.skip(d.len() as int + 1) =~= number::decimal(p as nat));
    let t = d.push(':') + number::decimal(n);
    lemma_found(d, ':', number::decimal(n));
    assert(t.take(d.len() as int) =~= d);
    assert(t.skip(d.len() as int + 1) =~= number::decimal(n));
    text_laws::law_the_first_place_is_found(d, ':');
    if let Some(k) = text::find(d, ':') {
        assert(d.contains(d[k]));
    }
    number::lemma_decimal((a / 0x100_0000) as nat);
    assert(number::is_digit(d[0])) by {
        assert(d[0] == number::decimal((a / 0x100_0000) as nat)[0]);
        assert(number::is_digit(number::decimal((a / 0x100_0000) as nat)[0]));
    }
}

spec fn of_an_address(s: Seq<char>) -> bool {
    forall|i: int|
        0 <= i < s.len() ==> net::is_hex(#[trigger] s[i]) || s[i] == ':' || s[i] == '.'
}

proof fn lemma_sum_of_an_address(a: Seq<char>, b: Seq<char>)
    requires
        of_an_address(a),
        of_an_address(b),
    ensures
        of_an_address(a + b),
{
    let s = a + b;
    assert forall|i: int| 0 <= i < s.len() implies net::is_hex(#[trigger] s[i]) || s[i] == ':'
        || s[i] == '.' by {
        if i < a.len() {
            assert(s[i] == a[i]);
        } else {
            assert(s[i] == b[i - a.len()]);
        }
    }
}

proof fn lemma_groups_of_an_address(g: Seq<nat>)
    ensures
        of_an_address(net::colon_text(g)),
    decreases g.len(),
{
    reveal_strlit(":");
    assert(of_an_address(":"@));
    if g.len() == 1 {
        net_laws::lemma_hex(g[0]);
        let h = net::hex_text(g[0]);
        assert forall|i: int| 0 <= i < h.len() implies net::is_hex(#[trigger] h[i]) || h[i] == ':'
            || h[i] == '.' by {}
    } else if g.len() > 1 {
        lemma_groups_of_an_address(g.drop_last());
        net_laws::lemma_hex(g.last());
        let h = net::hex_text(g.last());
        assert forall|i: int| 0 <= i < h.len() implies net::is_hex(#[trigger] h[i]) || h[i] == ':'
            || h[i] == '.' by {}
        lemma_sum_of_an_address(net::colon_text(g.drop_last()), ":"@);
        lemma_sum_of_an_address(net::colon_text(g.drop_last()) + ":"@, h);
    }
}

proof fn lemma_decimal_of_an_address(n: nat)
    ensures
        of_an_address(number::decimal(n)),
{
    number::lemma_decimal(n);
    let d = number::decimal(n);
    assert forall|i: int| 0 <= i < d.len() implies net::is_hex(#[trigger] d[i]) || d[i] == ':'
        || d[i] == '.' by {
        assert(number::is_digit(d[i]));
    }
}

proof fn lemma_text_of_an_address(a: u128)
    ensures
        of_an_address(net::ipv6_text(a)),
{
    if a / 0x1_0000_0000 == 0xffff {
        let v = (a % 0x1_0000_0000) as u32;
        reveal_strlit("::ffff:");
        reveal_strlit(".");
        let (w, x, y, z) = (
            number::decimal((v / 0x100_0000) as nat),
            number::decimal((v / 0x1_0000 % 256) as nat),
            number::decimal((v / 0x100 % 256) as nat),
            number::decimal((v % 256) as nat),
        );
        lemma_decimal_of_an_address((v / 0x100_0000) as nat);
        lemma_decimal_of_an_address((v / 0x1_0000 % 256) as nat);
        lemma_decimal_of_an_address((v / 0x100 % 256) as nat);
        lemma_decimal_of_an_address((v % 256) as nat);
        assert(of_an_address("."@));
        lemma_sum_of_an_address(w, "."@);
        lemma_sum_of_an_address(w + "."@, x);
        lemma_sum_of_an_address(w + "."@ + x, "."@);
        lemma_sum_of_an_address(w + "."@ + x + "."@, y);
        lemma_sum_of_an_address(w + "."@ + x + "."@ + y, "."@);
        lemma_sum_of_an_address(w + "."@ + x + "."@ + y + "."@, z);
        let m = "::ffff:"@;
        assert(m.len() == 7);
        assert(m[0] == ':' && m[1] == ':' && m[2] == 'f' && m[3] == 'f' && m[4] == 'f' && m[5]
            == 'f' && m[6] == ':');
        assert(of_an_address(m));
        lemma_sum_of_an_address(m, net::dotted(v));
    } else {
        let g = net::split_groups(a as nat, 8);
        let (start, len) = net::longest_zeros(g, 0);
        reveal_strlit("::");
        assert(of_an_address("::"@));
        lemma_groups_of_an_address(g);
        lemma_groups_of_an_address(g.take(start));
        lemma_groups_of_an_address(g.skip(start + len));
        lemma_sum_of_an_address(net::colon_text(g.take(start)), "::"@);
        lemma_sum_of_an_address(
            net::colon_text(g.take(start)) + "::"@,
            net::colon_text(g.skip(start + len)),
        );
    }
}

/// An IPv6 address with a port is read back from its notation in brackets.
pub proof fn law_sockets_in_brackets_are_read_back(a: u128, p: u16)
    ensures
        net::socket(
            (seq!['['] + net::ipv6_text(a)).push(']') + (seq![':'] + number::decimal(p as nat)),
        ) == Some(SocketAddr { ip: IpAddr::V6(a), port: p, scope: 0 }),
{
    lemma_text_of_an_address(a);
    lemma_scoped(net::ipv6_text(a), a, 0);
    lemma_bracketed(net::ipv6_text(a), a, 0, p);
}

/// So is one with a scope.
pub proof fn law_scopes_are_read_back(a: u128, scope: u32, p: u16)
    ensures
        net::socket(
            (seq!['['] + (net::ipv6_text(a).push('%') + number::decimal(scope as nat))).push(']')
                + (seq![':'] + number::decimal(p as nat)),
        ) == Some(SocketAddr { ip: IpAddr::V6(a), port: p, scope }),
{
    let t = net::ipv6_text(a);
    let z = number::decimal(scope as nat);
    lemma_text_of_an_address(a);
    lemma_decimal_of_an_address(scope as nat);
    lemma_scoped(t, a, scope);
    lemma_with_scope(t, z);
    lemma_bracketed(t.push('%') + z, a, scope, p);
}

proof fn lemma_with_scope(t: Seq<char>, z: Seq<char>)
    requires
        of_an_address(t),
        of_an_address(z),
    ensures
        forall|i: int|
            0 <= i < (t.push('%') + z).len() ==> net::is_hex(#[trigger] (t.push('%') + z)[i]) || (
            t.push('%') + z)[i] == ':' || (t.push('%') + z)[i] == '.' || (t.push('%') + z)[i]
                == '%',
{
    let u = t.push('%') + z;
    assert forall|i: int| 0 <= i < u.len() implies net::is_hex(#[trigger] u[i]) || u[i] == ':'
        || u[i] == '.' || u[i] == '%' by {
        if i < t.len() {
            assert(u[i] == t[i]);
        } else if i > t.len() {
            assert(u[i] == z[i - t.len() - 1]);
        }
    }
}

proof fn lemma_scoped(t: Seq<char>, a: u128, scope: u32)
    requires
        t == net::ipv6_text(a),
        of_an_address(t),
    ensures
        net::scoped_v6(t) == Some((a, 0nat)),
        net::scoped_v6(t.push('%') + number::decimal(scope as nat)) == Some((a, scope as nat)),
{
    let z = number::decimal(scope as nat);
    net_laws::law_addresses_with_colons_are_read_back(a);
    lemma_plain_number(scope as nat, u32::MAX as nat);
    assert(!t.contains('%')) by {
        if t.contains('%') {
            let i = choose|i: int| 0 <= i < t.len() && t[i] == '%';
            assert(net::is_hex(t[i]) || t[i] == ':' || t[i] == '.');
        }
    }
    text_laws::law_the_first_place_is_found(t, '%');
    if let Some(k) = text::find(t, '%') {
        assert(t.contains(t[k]));
    }
    let u = t.push('%') + z;
    lemma_found(t, '%', z);
    assert(u.take(t.len() as int) =~= t);
    assert(u.skip(t.len() as int + 1) =~= z);
}

proof fn lemma_bracketed(u: Seq<char>, a: u128, scope: u32, p: u16)
    requires
        net::scoped_v6(u) == Some((a, scope as nat)),
        forall|i: int|
            0 <= i < u.len() ==> net::is_hex(#[trigger] u[i]) || u[i] == ':' || u[i] == '.' || u[i]
                == '%',
    ensures
        net::socket((seq!['['] + u).push(']') + (seq![':'] + number::decimal(p as nat))) == Some(
            SocketAddr { ip: IpAddr::V6(a), port: p, scope },
        ),
{
    let d = number::decimal(p as nat);
    let s = (seq!['['] + u).push(']') + (seq![':'] + d);
    lemma_plain_number(p as nat, 65535);
    let before = seq!['['] + u;
    assert(!before.contains(']')) by {
        if before.contains(']') {
            let i = choose|i: int| 0 <= i < before.len() && before[i] == ']';
            assert(i > 0);
            assert(before[i] == u[i - 1]);
            assert(net::is_hex(u[i - 1]) || u[i - 1] == ':' || u[i - 1] == '.' || u[i - 1] == '%');
        }
    }
    lemma_found(before, ']', seq![':'] + d);
    let k = before.len() as int;
    assert(s[0] == '[' && s[k + 1] == ':');
    assert(s.subrange(1, k) =~= u);
    assert(s.skip(k + 2) =~= d);
    text_laws::law_the_first_place_is_found(s, ':');
    if let Some(j) = text::find(s, ':') {
        if j == 0 {
            assert(s[0] == ':');
        }
        if let Some(v) = net::ipv4(s.take(j)) {
            law_only_dotted_texts_are_addresses(s.take(j), v);
            number::lemma_decimal((v / 0x100_0000) as nat);
            let w = number::decimal((v / 0x100_0000) as nat);
            assert(number::is_digit(w[0]));
            assert(net::dotted(v)[0] == w[0]);
            assert(s.take(j)[0] == s[0]);
        }
    }
}

/// Groups on both sides of a double colon stand at both ends of the address, with zeros
/// between them; at least one group must be left out. Without a double colon there are
/// eight groups.
pub proof fn law_left_out_groups_are_zeros(h: Seq<nat>, t: Seq<nat>)
    requires
        net::small(h),
        net::small(t),
    ensures
        h.len() + t.len() <= 7 ==> net::ipv6(
            net::colon_text(h) + seq![':', ':'] + net::colon_text(t),
        ) == Some(
            net::join_groups(
                h + Seq::new((8 - h.len() - t.len()) as nat, |i: int| 0nat) + t,
            ) as u128,
        ),
        h.len() + t.len() > 7 ==> net::ipv6(
            net::colon_text(h) + seq![':', ':'] + net::colon_text(t),
        ) is None,
        h.len() == 8 ==> net::ipv6(net::colon_text(h)) == Some(net::join_groups(h) as u128),
        0 < h.len() && h.len() != 8 ==> net::ipv6(net::colon_text(h)) is None,
{
    net_laws::lemma_colon_text(h);
    net_laws::lemma_colon_text(t);
    let before = net::colon_text(h);
    let behind = net::colon_text(t);
    let s = before + seq![':', ':'] + behind;
    net_laws::lemma_first_pair(before, behind, 0);
    let k = before.len() as int;
    assert(s.take(k) =~= before);
    assert(s.skip(k + 2) =~= behind);
    net_laws::lemma_groups(h);
    net_laws::lemma_groups_with_v4(h);
    net_laws::lemma_groups_with_v4(t);
    net_laws::lemma_no_pair(before, 0);
}

/// A group is worth sixteen bits more than the one behind it.
pub proof fn law_groups_are_of_sixteen_bits(g: Seq<nat>, n: nat, s: Seq<char>)
    ensures
        net::join_groups(Seq::empty()) == 0,
        net::join_groups(g.push(n)) == 65536 * net::join_groups(g) + n,
        n <= 0xffff ==> net::group(net::hex_text(n)) == Some(n),
        n <= 0xffff ==> net::group(text::ascii_upper(net::hex_text(n))) == Some(n),
        n > 0xffff ==> net::group(net::hex_text(n)) is None,
        s.len() == 0 || s.len() > 4 ==> net::group(s) is None,
{
    assert(g.push(n).drop_last() =~= g);
    if n <= 0xffff {
        net_laws::lemma_group(n);
        lemma_capitals(net::hex_text(n));
    } else {
        assert(net::hex_text(n).len() > 4) by {
            reveal_with_fuel(net::hex_text, 5);
            net_laws::lemma_hex(n / 16 / 16 / 16 / 16);
        }
    }
}

proof fn lemma_capitals(s: Seq<char>)
    requires
        net::all_hex(s),
    ensures
        net::all_hex(text::ascii_upper(s)),
        net::hex_number(text::ascii_upper(s)) == net::hex_number(s),
    decreases s.len(),
{
    let u = text::ascii_upper(s);
    assert forall|i: int| 0 <= i < u.len() implies net::is_hex(#[trigger] u[i]) by {
        assert(net::is_hex(s[i]));
    }
    if s.len() > 0 {
        let r = s.drop_last();
        assert(net::all_hex(r)) by {
            assert forall|i: int| 0 <= i < r.len() implies net::is_hex(#[trigger] r[i]) by {
                assert(r[i] == s[i]);
            }
        }
        lemma_capitals(r);
        assert(u.drop_last() =~= text::ascii_upper(r));
        assert(net::is_hex(s[s.len() - 1]));
        assert(net::hex_value(u.last()) == net::hex_value(s.last()));
    }
}

proof fn lemma_run(g: Seq<nat>, i: int, n: int)
    requires
        0 <= i,
        0 <= n,
        i + n <= g.len(),
        forall|j: int| i <= j < i + n ==> #[trigger] g[j] == 0,
    ensures
        net::zeros_at(g, i) >= n,
    decreases n,
{
    if n > 0 {
        assert(g[i] == 0);
        lemma_run(g, i + 1, n - 1);
    }
}

proof fn lemma_longest_of_all(g: Seq<nat>, i: int, j: int)
    requires
        0 <= i <= j < g.len(),
    ensures
        ({
            let (start, len) = net::longest_zeros(g, i);
            &&& net::zeros_at(g, j) <= len
            &&& len > 0 && net::zeros_at(g, j) == len ==> start <= j
        }),
    decreases g.len() - i,
{
    if i < j {
        lemma_longest_of_all(g, i + 1, j);
    }
    if i + 1 < g.len() {
        lemma_longest_of_all(g, i + 1, g.len() - 1);
    }
}

/// The groups that are left out of the notation are the longest run of zeros, and the
/// first of those where there are several.
pub proof fn law_the_longest_zeros_are_left_out(g: Seq<nat>, i: int, n: int)
    requires
        0 <= i,
        0 < n,
        i + n <= g.len(),
        forall|j: int| i <= j < i + n ==> #[trigger] g[j] == 0,
    ensures
        ({
            let (start, len) = net::longest_zeros(g, 0);
            &&& n <= len
            &&& n == len ==> start <= i
            &&& 0 <= start && start + len <= g.len()
            &&& forall|j: int| start <= j < start + len ==> #[trigger] g[j] == 0
        }),
{
    lemma_run(g, i, n);
    lemma_longest_of_all(g, 0, i);
    net_laws::lemma_longest(g, 0);
}

/// An address that stands for an IPv4 address is written with dots; any other in groups,
/// without the longest run of zeros where that is more than one.
pub proof fn law_how_addresses_are_written(a: u128, v: u32)
    ensures
        net::ipv6_text((0xffff * 0x1_0000_0000 + v) as u128) == seq![
            ':',
            ':',
            'f',
            'f',
            'f',
            'f',
            ':',
        ] + net::dotted(v),
        a / 0x1_0000_0000 != 0xffff ==> {
            let g = net::split_groups(a as nat, 8);
            let (start, len) = net::longest_zeros(g, 0);
            &&& len <= 1 ==> net::ipv6_text(a) == net::colon_text(g)
            &&& len >= 2 ==> net::ipv6_text(a) == net::colon_text(g.take(start)) + seq![':', ':']
                + net::colon_text(g.skip(start + len))
        },
        net::join_groups(net::split_groups(a as nat, 8)) == a,
        net::small(net::split_groups(a as nat, 8)),
{
    reveal_strlit("::ffff:");
    reveal_strlit("::");
    assert("::ffff:"@ =~= seq![':', ':', 'f', 'f', 'f', 'f', ':']);
    assert("::"@ =~= seq![':', ':']);
    assert(a < net_laws::room(8)) by {
        reveal_with_fuel(net_laws::room, 9);
    }
    net_laws::lemma_split(a as nat, 8);
    let m: u128 = (0xffff * 0x1_0000_0000 + v) as u128;
    assert(m / 0x1_0000_0000 == 0xffff && m % 0x1_0000_0000 == v);
}

/// Groups are written in small letters without leading zeros, with a colon between two.
pub proof fn law_how_groups_are_written(g: Seq<nat>, n: nat)
    ensures
        net::colon_text(Seq::empty()).len() == 0,
        net::colon_text(seq![n]) == net::hex_text(n),
        g.len() > 0 ==> net::colon_text(g.push(n)) == net::colon_text(g).push(':')
            + net::hex_text(n),
        n > 0 ==> net::hex_text(n)[0] != '0',
        text::ascii_lower(net::hex_text(n)) == net::hex_text(n),
{
    reveal_strlit(":");
    assert(g.push(n).drop_last() =~= g);
    assert(net::colon_text(g) + ":"@ + net::hex_text(n) =~= net::colon_text(g).push(':')
        + net::hex_text(n));
    lemma_hex_small(n);
}

proof fn lemma_hex_small(n: nat)
    ensures
        net::hex_text(n).len() > 0,
        n > 0 ==> net::hex_text(n)[0] != '0',
        text::ascii_lower(net::hex_text(n)) == net::hex_text(n),
    decreases n,
{
    if n >= 16 {
        lemma_hex_small(n / 16);
        let h = net::hex_text(n / 16);
        assert(net::hex_text(n) == h.push(net::hex_char(n % 16)));
        assert(text::ascii_lower(net::hex_text(n)) =~= text::ascii_lower(h).push(
            net::hex_char(n % 16),
        ));
    } else {
        assert(text::ascii_lower(net::hex_text(n)) =~= net::hex_text(n));
    }
}

} // verus!
