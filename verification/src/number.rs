//! Numbers written as text, and numbers written as bytes in network order.

use crate::text::chars_of;
use vstd::prelude::*;
use vstd::string::*;

verus! {

/// Whether the character is one of the ten decimal digits.
pub open spec fn is_digit(c: char) -> bool {
    '0' <= c <= '9'
}

/// The value of a decimal digit.
pub open spec fn digit_value(c: char) -> nat {
    (c as u32 - '0' as u32) as nat
}

/// Whether every character is a decimal digit.
pub open spec fn all_digits(s: Seq<char>) -> bool {
    forall|i: int| 0 <= i < s.len() ==> is_digit(#[trigger] s[i])
}

/// The number that a run of decimal digits denotes.
pub open spec fn digits_value(s: Seq<char>) -> nat
    decreases s.len(),
{
    if s.len() == 0 {
        0
    } else {
        10 * digits_value(s.drop_last()) + digit_value(s.last())
    }
}

/// Reads an unsigned decimal number that is at most `max`: an optional plus
/// sign and at least one digit.
pub open spec fn unsigned(s: Seq<char>, max: nat) -> Option<nat> {
    let d = if s.len() > 0 && s[0] == '+' {
        s.skip(1)
    } else {
        s
    };
    if d.len() > 0 && all_digits(d) && digits_value(d) <= max {
        Some(digits_value(d))
    } else {
        None
    }
}

proof fn lemma_digits_grow(s: Seq<char>, k: int)
    requires
        0 <= k <= s.len(),
    ensures
        digits_value(s.take(k)) <= digits_value(s),
    decreases s.len() - k,
{
    if k < s.len() {
        lemma_digits_grow(s, k + 1);
        assert(s.take(k + 1).drop_last() == s.take(k));
    } else {
        assert(s.take(k) == s);
    }
}

/// Reads an unsigned decimal number that is at most `max`.
pub fn parse_unsigned(s: &str, max: u64) -> (r: Option<u64>)
    ensures
        (match r {
            Some(n) => unsigned(s@, max as nat) == Some(n as nat),
            None => unsigned(s@, max as nat) is None,
        }),
{
    let chars = chars_of(s);
    parse_unsigned_chars(&chars, max)
}

/// Reads an unsigned decimal number that is at most `max`.
pub fn parse_unsigned_chars(chars: &Vec<char>, max: u64) -> (r: Option<u64>)
    ensures
        (match r {
            Some(n) => unsigned(chars@, max as nat) == Some(n as nat),
            None => unsigned(chars@, max as nat) is None,
        }),
{
    let start: usize = if chars.len() > 0 && chars[0] == '+' {
        1
    } else {
        0
    };
    let ghost d = if chars@.len() > 0 && chars@[0] == '+' {
        chars@.skip(1)
    } else {
        chars@
    };
    assert(d == chars@.skip(start as int));
    if chars.len() == start {
        return None;
    }
    let mut value: u64 = 0;
    let mut i: usize = start;
    while i < chars.len()
        invariant
            start <= i <= chars@.len(),
            d == chars@.skip(start as int),
            d == (if chars@.len() > 0 && chars@[0] == '+' {
                chars@.skip(1)
            } else {
                chars@
            }),
            value == digits_value(d.take(i - start)),
            value <= max,
            all_digits(d.take(i - start)),
        decreases chars@.len() - i,
    {
        let c = chars[i];
        let ghost k = i - start;
        assert(d[k] == c);
        assert(d.take(k + 1).drop_last() == d.take(k));
        if !('0' <= c && c <= '9') {
            assert(!is_digit(d[k]));
            return None;
        }
        let v: u64 = (c as u32 - '0' as u32) as u64;
        proof {
            lemma_digits_grow(d, k + 1);
        }
        if max < v || value > (max - v) / 10 {
            return None;
        }
        assert(value * 10 + v <= max);
        value = value * 10 + v;
        assert(all_digits(d.take(k + 1))) by {
            assert forall|j: int| 0 <= j < k + 1 implies is_digit(#[trigger] d.take(k + 1)[j]) by {
                if j < k {
                    assert(d.take(k)[j] == d.take(k + 1)[j]);
                }
            }
        }
        i += 1;
    }
    assert(d.take(d.len() as int) == d);
    Some(value)
}

/// Reads a port number.
pub fn parse_u16(s: &str) -> (r: Option<u16>)
    ensures
        (match r {
            Some(n) => unsigned(s@, u16::MAX as nat) == Some(n as nat),
            None => unsigned(s@, u16::MAX as nat) is None,
        }),
{
    match parse_unsigned(s, 65535) {
        Some(n) => Some(n as u16),
        None => None,
    }
}

/// Reads a number of 32 bits.
pub fn parse_u32(s: &str) -> (r: Option<u32>)
    ensures
        (match r {
            Some(n) => unsigned(s@, u32::MAX as nat) == Some(n as nat),
            None => unsigned(s@, u32::MAX as nat) is None,
        }),
{
    match parse_unsigned(s, 0xffff_ffff) {
        Some(n) => Some(n as u32),
        None => None,
    }
}

/// Reads a number of eight bits.
pub fn parse_u8(s: &str) -> (r: Option<u8>)
    ensures
        (match r {
            Some(n) => unsigned(s@, u8::MAX as nat) == Some(n as nat),
            None => unsigned(s@, u8::MAX as nat) is None,
        }),
{
    match parse_unsigned(s, 255) {
        Some(n) => Some(n as u8),
        None => None,
    }
}

/// The decimal digit of a value below ten.
pub open spec fn digit_char(n: nat) -> char {
    (('0' as u32) + n) as u32 as char
}

/// The decimal notation of a number.
pub open spec fn decimal(n: nat) -> Seq<char>
    decreases n,
{
    if n < 10 {
        seq![digit_char(n)]
    } else {
        decimal(n / 10).push(digit_char(n % 10))
    }
}

/// The notation of a number is made of digits that denote it, and starts with a zero
/// only where the number is zero.
pub proof fn lemma_decimal(n: nat)
    ensures
        decimal(n).len() > 0,
        all_digits(decimal(n)),
        digits_value(decimal(n)) == n,
        n > 0 ==> decimal(n)[0] != '0',
    decreases n,
{
    if n < 10 {
        assert(decimal(n).drop_last() =~= Seq::empty());
        assert(digits_value(decimal(n).drop_last()) == 0);
    } else {
        lemma_decimal(n / 10);
        assert(decimal(n).drop_last() =~= decimal(n / 10));
    }
}

/// A number is read back from its notation.
pub proof fn law_decimals_are_read_back(n: nat, max: nat)
    requires
        n <= max,
    ensures
        unsigned(decimal(n), max) == Some(n),
{
    lemma_decimal(n);
    assert(is_digit(decimal(n)[0]));
}

/// Writes a number in decimal notation.
pub fn to_decimal(n: u64) -> (s: String)
    ensures
        s@ == decimal(n as nat),
    decreases n,
{
    let mut s = if n < 10 {
        String::new()
    } else {
        to_decimal(n / 10)
    };
    let d: u8 = (n % 10) as u8;
    s.push((48 + d) as char);
    s
}

/// The decimal notation of a number that may be negative.
pub open spec fn signed(n: int) -> Seq<char> {
    if n < 0 {
        seq!['-'] + decimal((-n) as nat)
    } else {
        decimal(n as nat)
    }
}

/// Writes a number that may be negative in decimal notation.
pub fn to_signed(n: i64) -> (s: String)
    ensures
        s@ == signed(n as int),
{
    if n >= 0 {
        return to_decimal(n as u64);
    }
    let size: u64 = if n == i64::MIN {
        9223372036854775808
    } else {
        (-n) as u64
    };
    assert(size == -n);
    proof {
        reveal_strlit("-");
        assert("-"@ =~= seq!['-']);
    }
    "-".to_owned().concat(to_decimal(size).as_str())
}

/// The two bytes of a number in network order.
pub open spec fn be16(n: u16) -> Seq<u8> {
    seq![(n / 256) as u8, (n % 256) as u8]
}

/// The four bytes of a number in network order.
pub open spec fn be32(n: u32) -> Seq<u8> {
    seq![
        (n / 0x100_0000) as u8,
        (n / 0x1_0000 % 256) as u8,
        (n / 0x100 % 256) as u8,
        (n % 256) as u8,
    ]
}

/// The number that two bytes in network order denote.
pub open spec fn from_be16(hi: u8, lo: u8) -> u16 {
    (hi * 256 + lo) as u16
}

/// Two bytes in network order give back the number they were written from.
pub proof fn law_be16_round_trip(n: u16)
    ensures
        be16(n).len() == 2,
        from_be16(be16(n)[0], be16(n)[1]) == n,
{
}

/// Combines two bytes in network order.
pub fn read_be16(hi: u8, lo: u8) -> (n: u16)
    ensures
        n == from_be16(hi, lo),
        n == hi * 256 + lo,
{
    (hi as u16) * 256 + lo as u16
}

} // verus!
