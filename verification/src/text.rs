//! Text as sequences of characters: the small string operations that the
//! configuration and protocol code is written with.

use vstd::prelude::*;
use vstd::string::*;
use vstd::utf8::*;

verus! {

/// `String::push` appends one character.
pub assume_specification[ String::push ](s: &mut String, c: char)
    ensures
        final(s)@ == old(s)@.push(c),
;

/// What a lossy decoding makes of bytes.
pub uninterp spec fn utf8_lossy(bytes: Seq<u8>) -> Seq<char>;

/// `String::from_utf8_lossy` decodes UTF-8 and puts U+FFFD in place of what is
/// not valid. Valid input is decoded as it stands.
#[verifier::external_body]
pub(crate) fn lossy(bytes: &[u8]) -> (s: String)
    ensures
        s@ == utf8_lossy(bytes@),
        valid_utf8(bytes@) ==> s@ == decode_utf8(bytes@),
{
    String::from_utf8_lossy(bytes).into_owned()
}

/// How `String::from_utf8` describes what is wrong with bytes.
pub uninterp spec fn utf8_fault(bytes: Seq<u8>) -> Seq<char>;

/// `String::from_utf8` decodes UTF-8, and fails exactly where the bytes are not
/// valid UTF-8. Then the text of its error is given.
#[verifier::external_body]
pub(crate) fn decode(bytes: &[u8]) -> (s: Result<String, String>)
    ensures
        s is Ok <==> valid_utf8(bytes@),
        s matches Ok(t) ==> t@ == decode_utf8(bytes@),
        s matches Err(e) ==> e@ == utf8_fault(bytes@),
{
    String::from_utf8(bytes.to_vec()).map_err(|e| e.to_string())
}

/// Whether the longest beginning of bytes that is valid UTF-8 has this length, and
/// more follows.
pub open spec fn valid_up_to(bytes: Seq<u8>, n: nat) -> bool {
    &&& n < bytes.len()
    &&& valid_utf8(bytes.take(n as int))
    &&& forall|m: int| n < m <= bytes.len() ==> !valid_utf8(#[trigger] bytes.take(m))
}

/// How `std::str::from_utf8` describes what is wrong with bytes.
pub uninterp spec fn str_fault(bytes: Seq<u8>) -> Seq<char>;

/// `std::str::from_utf8` decodes UTF-8, and fails exactly where the bytes are not
/// valid UTF-8: then `valid_up_to` tells how long the longest beginning is that is
/// valid, and the text of its error is given.
#[verifier::external_body]
pub(crate) fn decode_at(bytes: &[u8]) -> (s: Result<String, (usize, String)>)
    ensures
        s is Ok <==> valid_utf8(bytes@),
        s matches Ok(t) ==> t@ == decode_utf8(bytes@),
        s matches Err(e) ==> valid_up_to(bytes@, e.0 as nat) && e.1@ == str_fault(bytes@),
{
    std::str::from_utf8(bytes).map(|t| t.to_owned()).map_err(|e| (e.valid_up_to(), e.to_string()))
}

/// Every character is ASCII.
pub open spec fn all_ascii(s: Seq<char>) -> bool {
    forall|i: int| 0 <= i < s.len() ==> (#[trigger] s[i]) as u32 <= 127
}

/// A text in lowercase letters, as Unicode has them.
pub uninterp spec fn unicode_lower(s: Seq<char>) -> Seq<char>;

/// `str::to_lowercase` maps every letter to its lowercase as Unicode has it. On
/// ASCII texts that is the ASCII lowercase.
#[verifier::external_body]
pub(crate) fn lowercase(s: &str) -> (out: String)
    ensures
        out@ == unicode_lower(s@),
        all_ascii(s@) ==> out@ == ascii_lower(s@),
{
    s.to_lowercase()
}

/// A text in uppercase letters, as Unicode has them.
pub uninterp spec fn unicode_upper(s: Seq<char>) -> Seq<char>;

/// `str::to_uppercase` maps every letter to its uppercase as Unicode has it. On
/// ASCII texts that is the ASCII uppercase.
#[verifier::external_body]
pub(crate) fn uppercase(s: &str) -> (out: String)
    ensures
        out@ == unicode_upper(s@),
        all_ascii(s@) ==> out@ == ascii_upper(s@),
{
    s.to_uppercase()
}

/// The bytes `v[lo..hi]`, copied.
pub fn slice_of(v: &Vec<u8>, lo: usize, hi: usize) -> (out: Vec<u8>)
    requires
        lo <= hi <= v@.len(),
    ensures
        out@ == v@.subrange(lo as int, hi as int),
{
    let mut out: Vec<u8> = Vec::new();
    let mut i: usize = lo;
    while i < hi
        invariant
            lo <= i <= hi <= v@.len(),
            out@ == v@.subrange(lo as int, i as int),
        decreases hi - i,
    {
        out.push(v[i]);
        i += 1;
    }
    out
}

/// The bytes of a string, copied.
pub fn bytes_of(s: &str) -> (out: Vec<u8>)
    ensures
        out@ == encode_utf8(s@),
{
    let b = s.as_bytes();
    let mut out: Vec<u8> = Vec::new();
    out.extend_from_slice(b);
    assert(out@ =~= b@);
    out
}

/// The texts of a list of strings.
pub open spec fn views(v: Seq<String>) -> Seq<Seq<char>> {
    v.map_values(|s: String| s@)
}

/// The text of an optional string.
pub open spec fn opt_view(o: Option<String>) -> Option<Seq<char>> {
    match o {
        Some(s) => Some(s@),
        None => None,
    }
}

/// The characters of a string, in order.
pub fn chars_of(s: &str) -> (out: Vec<char>)
    ensures
        out@ == s@,
{
    let mut out: Vec<char> = Vec::new();
    for c in it: s.chars()
        invariant
            out@ == s@.take(it.index() as int),
            it.seq() == s@,
    {
        out.push(c);
    }
    assert(s@.take(s@.len() as int) == s@);
    out
}

/// The string made of `chars[lo..hi]`.
pub fn string_range(chars: &Vec<char>, lo: usize, hi: usize) -> (out: String)
    requires
        lo <= hi <= chars@.len(),
    ensures
        out@ == chars@.subrange(lo as int, hi as int),
{
    let mut out = String::new();
    let mut i: usize = lo;
    while i < hi
        invariant
            lo <= i <= hi <= chars@.len(),
            out@ == chars@.subrange(lo as int, i as int),
        decreases hi - i,
    {
        out.push(chars[i]);
        i += 1;
    }
    out
}

/// Texts with the same encoding are the same.
pub proof fn lemma_same_bytes(a: Seq<char>, b: Seq<char>)
    requires
        encode_utf8(a) == encode_utf8(b),
    ensures
        a == b,
{
    encode_utf8_decode_utf8(a);
    encode_utf8_decode_utf8(b);
}

/// Two strings with the same encoding hold the same characters.
proof fn lemma_bytes_determine_text(a: &str, b: &str)
    ensures
        a.spec_bytes() == b.spec_bytes() <==> a@ == b@,
{
    encode_utf8_decode_utf8(a@);
    encode_utf8_decode_utf8(b@);
}

/// Whether two strings hold the same characters.
pub fn same(a: &str, b: &str) -> (r: bool)
    ensures
        r == (a@ == b@),
{
    proof {
        lemma_bytes_determine_text(a, b);
    }
    let x = a.as_bytes();
    let y = b.as_bytes();
    if x.len() != y.len() {
        return false;
    }
    let mut i: usize = 0;
    while i < x.len()
        invariant
            i <= x@.len(),
            x@.len() == y@.len(),
            x@ == a.spec_bytes(),
            y@ == b.spec_bytes(),
            forall|j: int| 0 <= j < i ==> x@[j] == y@[j],
            a.spec_bytes() == b.spec_bytes() <==> a@ == b@,
        decreases x@.len() - i,
    {
        if x[i] != y[i] {
            assert(a.spec_bytes()[i as int] != b.spec_bytes()[i as int]);
            return false;
        }
        i += 1;
    }
    assert(x@ =~= y@);
    true
}

/// Whether the character has the Unicode `White_Space` property.
pub open spec fn is_space(c: char) -> bool {
    let u = c as u32;
    ||| 0x9 <= u <= 0xd
    ||| u == 0x20
    ||| u == 0x85
    ||| u == 0xa0
    ||| u == 0x1680
    ||| 0x2000 <= u <= 0x200a
    ||| u == 0x2028
    ||| u == 0x2029
    ||| u == 0x202f
    ||| u == 0x205f
    ||| u == 0x3000
}

/// Decides [`is_space`].
pub fn space(c: char) -> (r: bool)
    ensures
        r == is_space(c),
{
    let u: u32 = c as u32;
    (0x9 <= u && u <= 0xd) || u == 0x20 || u == 0x85 || u == 0xa0 || u == 0x1680 || (0x2000 <= u
        && u <= 0x200a) || u == 0x2028 || u == 0x2029 || u == 0x202f || u == 0x205f || u == 0x3000
}

/// The text without its leading white space.
pub open spec fn trim_start(s: Seq<char>) -> Seq<char>
    decreases s.len(),
{
    if s.len() > 0 && is_space(s[0]) {
        trim_start(s.skip(1))
    } else {
        s
    }
}

/// The text without its trailing white space.
pub open spec fn trim_end(s: Seq<char>) -> Seq<char>
    decreases s.len(),
{
    if s.len() > 0 && is_space(s.last()) {
        trim_end(s.drop_last())
    } else {
        s
    }
}

/// The text without white space at either end.
pub open spec fn trimmed(s: Seq<char>) -> Seq<char> {
    trim_end(trim_start(s))
}

/// Removes white space at both ends.
pub fn trim(s: &str) -> (out: String)
    ensures
        out@ == trimmed(s@),
{
    let chars = chars_of(s);
    trim_chars(&chars)
}

/// The trimmed text of a list of characters.
pub fn trim_chars(chars: &Vec<char>) -> (out: String)
    ensures
        out@ == trimmed(chars@),
{
    let mut lo: usize = 0;
    assert(chars@.skip(0) == chars@);
    while lo < chars.len() && space(chars[lo])
        invariant
            lo <= chars@.len(),
            trim_start(chars@) == trim_start(chars@.skip(lo as int)),
        decreases chars@.len() - lo,
    {
        assert(chars@.skip(lo as int).skip(1) == chars@.skip(lo + 1));
        lo += 1;
    }
    assert(trim_start(chars@) == chars@.skip(lo as int));
    let mut hi: usize = chars.len();
    assert(chars@.subrange(lo as int, hi as int) == chars@.skip(lo as int));
    while hi > lo && space(chars[hi - 1])
        invariant
            lo <= hi <= chars@.len(),
            trimmed(chars@) == trim_end(chars@.subrange(lo as int, hi as int)),
        decreases hi - lo,
    {
        assert(chars@.subrange(lo as int, hi as int).drop_last() == chars@.subrange(
            lo as int,
            hi - 1,
        ));
        hi -= 1;
    }
    string_range(chars, lo, hi)
}

/// The parts of a text between the separators, the empty ones included.
pub open spec fn parts(s: Seq<char>, sep: char) -> Seq<Seq<char>>
    decreases s.len(),
{
    if s.len() == 0 {
        seq![Seq::empty()]
    } else {
        let p = parts(s.drop_last(), sep);
        if s.last() == sep {
            p.push(Seq::empty())
        } else {
            p.drop_last().push(p.last().push(s.last()))
        }
    }
}

/// Splits at every separator.
pub fn split(s: &str, sep: char) -> (out: Vec<String>)
    ensures
        views(out@) == parts(s@, sep),
        out@.len() > 0,
{
    let chars = chars_of(s);
    let mut out: Vec<String> = Vec::new();
    let mut cur = String::new();
    let mut i: usize = 0;
    while i < chars.len()
        invariant
            i <= chars@.len(),
            views(out@).push(cur@) == parts(chars@.take(i as int), sep),
        decreases chars@.len() - i,
    {
        let c = chars[i];
        let ghost before = views(out@).push(cur@);
        let ghost next = chars@.take(i + 1);
        assert(next.drop_last() == chars@.take(i as int));
        assert(before.drop_last() == views(out@));
        if c == sep {
            let ghost shown = views(out@).push(cur@);
            out.push(cur);
            assert(views(out@) == shown);
            cur = String::new();
        } else {
            cur.push(c);
        }
        i += 1;
    }
    assert(chars@.take(i as int) == s@);
    let ghost shown = views(out@).push(cur@);
    out.push(cur);
    assert(views(out@) == shown);
    out
}

/// The lines of a text: what stands between line feeds, without a carriage
/// return directly before the line feed, and without an empty last line.
pub open spec fn line_list(s: Seq<char>) -> Seq<Seq<char>> {
    let p = parts(s, '\n');
    let full = p.drop_last().map_values(|l: Seq<char>| without_return(l));
    if p.last().len() == 0 {
        full
    } else {
        full.push(p.last())
    }
}

/// A line without one carriage return at its end.
pub open spec fn without_return(l: Seq<char>) -> Seq<char> {
    if l.len() > 0 && l.last() == '\r' {
        l.drop_last()
    } else {
        l
    }
}

fn strip_return(l: &str) -> (out: String)
    ensures
        out@ == without_return(l@),
{
    let chars = chars_of(l);
    let n: usize = chars.len();
    if n > 0 && chars[n - 1] == '\r' {
        string_range(&chars, 0, n - 1)
    } else {
        string_range(&chars, 0, n)
    }
}

/// Splits a text into its lines.
pub fn lines(s: &str) -> (out: Vec<String>)
    ensures
        views(out@) == line_list(s@),
{
    let pieces = split(s, '\n');
    let n: usize = pieces.len();
    let mut out: Vec<String> = Vec::new();
    let mut i: usize = 0;
    let ghost p = parts(s@, '\n');
    let ghost full = p.drop_last().map_values(|l: Seq<char>| without_return(l));
    while i + 1 < n
        invariant
            n == pieces@.len(),
            0 < n,
            i < n,
            p == views(pieces@),
            full == p.drop_last().map_values(|l: Seq<char>| without_return(l)),
            views(out@) == full.take(i as int),
        decreases n - i,
    {
        let line = strip_return(&pieces[i]);
        let ghost shown = views(out@).push(line@);
        assert(p[i as int] == pieces@[i as int]@);
        assert(full[i as int] == line@);
        out.push(line);
        assert(views(out@) == shown);
        assert(full.take(i as int).push(full[i as int]) == full.take(i + 1));
        i += 1;
    }
    assert(full.take(i as int) == full);
    assert(p.last() == pieces@[n - 1]@);
    if pieces[n - 1].as_str().is_empty() {
        out
    } else {
        let last = pieces[n - 1].clone();
        let ghost shown = views(out@).push(last@);
        out.push(last);
        assert(views(out@) == shown);
        out
    }
}

/// The words of a text, together with the word that is still open at its end.
pub open spec fn open_words(s: Seq<char>) -> (Seq<Seq<char>>, Seq<char>)
    decreases s.len(),
{
    if s.len() == 0 {
        (Seq::empty(), Seq::empty())
    } else {
        let (done, cur) = open_words(s.drop_last());
        if !is_space(s.last()) {
            (done, cur.push(s.last()))
        } else if cur.len() == 0 {
            (done, cur)
        } else {
            (done.push(cur), Seq::empty())
        }
    }
}

/// The maximal runs of characters that are not white space.
pub open spec fn word_list(s: Seq<char>) -> Seq<Seq<char>> {
    let (done, cur) = open_words(s);
    if cur.len() == 0 {
        done
    } else {
        done.push(cur)
    }
}

/// Splits a text at white space.
pub fn words(s: &str) -> (out: Vec<String>)
    ensures
        views(out@) == word_list(s@),
{
    let chars = chars_of(s);
    let mut out: Vec<String> = Vec::new();
    let mut cur = String::new();
    let mut i: usize = 0;
    while i < chars.len()
        invariant
            i <= chars@.len(),
            (views(out@), cur@) == open_words(chars@.take(i as int)),
        decreases chars@.len() - i,
    {
        let c = chars[i];
        assert(chars@.take(i + 1).drop_last() == chars@.take(i as int));
        if !space(c) {
            cur.push(c);
        } else if !cur.as_str().is_empty() {
            let ghost shown = views(out@).push(cur@);
            out.push(cur);
            assert(views(out@) == shown);
            cur = String::new();
        }
        i += 1;
    }
    assert(chars@.take(i as int) == s@);
    if !cur.as_str().is_empty() {
        let ghost shown = views(out@).push(cur@);
        out.push(cur);
        assert(views(out@) == shown);
    }
    out
}

/// Whether `prefix` stands in `s` at position `at`.
pub open spec fn occurs_at(s: Seq<char>, at: int, pat: Seq<char>) -> bool {
    0 <= at && at + pat.len() <= s.len() && s.subrange(at, at + pat.len()) == pat
}

/// Whether `pat` stands anywhere in `s`.
pub open spec fn has_substring(s: Seq<char>, pat: Seq<char>) -> bool {
    exists|at: int| occurs_at(s, at, pat)
}

/// Decides [`occurs_at`].
pub fn at_position(s: &Vec<char>, at: usize, pat: &Vec<char>) -> (r: bool)
    requires
        at <= s@.len(),
    ensures
        r == occurs_at(s@, at as int, pat@),
{
    let n: usize = s.len();
    if n - at < pat.len() {
        return false;
    }
    let mut i: usize = 0;
    while i < pat.len()
        invariant
            i <= pat@.len(),
            at + pat@.len() <= s@.len(),
            s@.len() == n,
            forall|j: int| 0 <= j < i ==> s@[at + j] == pat@[j],
        decreases pat@.len() - i,
    {
        if s[at + i] != pat[i] {
            assert(s@.subrange(at as int, at + pat@.len())[i as int] != pat@[i as int]);
            return false;
        }
        i += 1;
    }
    assert(s@.subrange(at as int, at + pat@.len()) =~= pat@);
    true
}

/// Whether `s` begins with `prefix`.
pub fn starts_with(s: &str, prefix: &str) -> (r: bool)
    ensures
        r == prefix@.is_prefix_of(s@),
{
    let a = chars_of(s);
    let b = chars_of(prefix);
    let r = at_position(&a, 0, &b);
    proof {
        if r {
            assert(s@.subrange(0, prefix@.len() as int) == prefix@);
        }
        if prefix@.is_prefix_of(s@) {
            assert(s@.subrange(0, prefix@.len() as int) =~= prefix@);
        }
    }
    r
}

/// Whether `s` holds `pat`.
pub fn contains(s: &str, pat: &str) -> (r: bool)
    ensures
        r == has_substring(s@, pat@),
{
    let a = chars_of(s);
    let b = chars_of(pat);
    let mut i: usize = 0;
    while i < a.len()
        invariant
            i <= a@.len(),
            a@ == s@,
            b@ == pat@,
            forall|j: int| 0 <= j < i ==> !occurs_at(a@, j, b@),
        decreases a@.len() - i,
    {
        if at_position(&a, i, &b) {
            return true;
        }
        i += 1;
    }
    at_position(&a, i, &b)
}

/// Whether the character occurs in the text.
pub fn contains_char(s: &str, c: char) -> (r: bool)
    ensures
        r == s@.contains(c),
{
    let a = chars_of(s);
    let mut i: usize = 0;
    while i < a.len()
        invariant
            i <= a@.len(),
            a@ == s@,
            forall|j: int| 0 <= j < i ==> a@[j] != c,
        decreases a@.len() - i,
    {
        if a[i] == c {
            assert(s@[i as int] == c);
            return true;
        }
        i += 1;
    }
    false
}

/// The part of `s` after its first `n` characters.
pub fn skip(s: &str, n: usize) -> (out: String)
    requires
        n <= s@.len(),
    ensures
        out@ == s@.skip(n as int),
{
    let a = chars_of(s);
    let out = string_range(&a, n, a.len());
    assert(s@.subrange(n as int, s@.len() as int) == s@.skip(n as int));
    out
}

/// An ASCII capital becomes its small letter; any other character stays.
pub open spec fn lower_char(c: char) -> char {
    if 'A' <= c <= 'Z' {
        ((c as u8) + 32) as u8 as char
    } else {
        c
    }
}

/// An ASCII small letter becomes its capital; any other character stays.
pub open spec fn upper_char(c: char) -> char {
    if 'a' <= c <= 'z' {
        ((c as u8) - 32) as u8 as char
    } else {
        c
    }
}

/// The text with its ASCII capitals made small.
pub open spec fn ascii_lower(s: Seq<char>) -> Seq<char> {
    s.map_values(|c: char| lower_char(c))
}

/// The text with its ASCII small letters made capitals.
pub open spec fn ascii_upper(s: Seq<char>) -> Seq<char> {
    s.map_values(|c: char| upper_char(c))
}

/// Computes [`ascii_lower`].
pub fn to_ascii_lower(s: &str) -> (out: String)
    ensures
        out@ == ascii_lower(s@),
{
    let a = chars_of(s);
    let mut out = String::new();
    let mut i: usize = 0;
    while i < a.len()
        invariant
            i <= a@.len(),
            a@ == s@,
            out@ == ascii_lower(s@.take(i as int)),
        decreases a@.len() - i,
    {
        let c = a[i];
        let ghost shown = out@.push(lower_char(c));
        assert(ascii_lower(s@.take(i + 1)) == shown);
        if 'A' <= c && c <= 'Z' {
            out.push((c as u8 + 32) as char);
        } else {
            out.push(c);
        }
        i += 1;
    }
    assert(s@.take(i as int) == s@);
    out
}

/// Computes [`ascii_upper`].
pub fn to_ascii_upper(s: &str) -> (out: String)
    ensures
        out@ == ascii_upper(s@),
{
    let a = chars_of(s);
    let mut out = String::new();
    let mut i: usize = 0;
    while i < a.len()
        invariant
            i <= a@.len(),
            a@ == s@,
            out@ == ascii_upper(s@.take(i as int)),
        decreases a@.len() - i,
    {
        let c = a[i];
        let ghost shown = out@.push(upper_char(c));
        assert(ascii_upper(s@.take(i + 1)) == shown);
        if 'a' <= c && c <= 'z' {
            out.push((c as u8 - 32) as char);
        } else {
            out.push(c);
        }
        i += 1;
    }
    assert(s@.take(i as int) == s@);
    out
}

/// The first position at or after `from` that holds the character.
pub open spec fn find_from(s: Seq<char>, c: char, from: int) -> Option<int>
    decreases s.len() - from,
{
    if from < 0 || from >= s.len() {
        None
    } else if s[from] == c {
        Some(from)
    } else {
        find_from(s, c, from + 1)
    }
}

/// The first position of the character.
pub open spec fn find(s: Seq<char>, c: char) -> Option<int> {
    find_from(s, c, 0)
}

/// Computes [`find`].
pub fn find_char(s: &Vec<char>, c: char) -> (r: Option<usize>)
    ensures
        (match r {
            Some(k) => find(s@, c) == Some(k as int) && k < s@.len() && s@[k as int] == c && k
                < usize::MAX,
            None => find(s@, c) is None,
        }),
{
    let mut i: usize = 0;
    while i < s.len()
        invariant
            i <= s@.len(),
            find(s@, c) == find_from(s@, c, i as int),
        decreases s@.len() - i,
    {
        if s[i] == c {
            return Some(i);
        }
        i += 1;
    }
    None
}

/// The last position of the character.
pub open spec fn rfind(s: Seq<char>, c: char) -> Option<int>
    decreases s.len(),
{
    if s.len() == 0 {
        None
    } else if s.last() == c {
        Some(s.len() - 1)
    } else {
        rfind(s.drop_last(), c)
    }
}

/// Computes [`rfind`].
pub fn rfind_char(s: &Vec<char>, c: char) -> (r: Option<usize>)
    ensures
        (match r {
            Some(k) => rfind(s@, c) == Some(k as int) && k < s@.len() && s@[k as int] == c && k
                < usize::MAX,
            None => rfind(s@, c) is None,
        }),
{
    let mut i: usize = s.len();
    assert(s@.take(i as int) == s@);
    while i > 0
        invariant
            i <= s@.len(),
            rfind(s@, c) == rfind(s@.take(i as int), c),
        decreases i,
    {
        assert(s@.take(i as int).drop_last() == s@.take(i - 1));
        if s[i - 1] == c {
            return Some(i - 1);
        }
        i -= 1;
    }
    None
}

/// Texts with a separator between them.
pub open spec fn joined(p: Seq<Seq<char>>, sep: Seq<char>) -> Seq<char>
    decreases p.len(),
{
    if p.len() == 0 {
        Seq::empty()
    } else if p.len() == 1 {
        p[0]
    } else {
        joined(p.drop_last(), sep) + sep + p.last()
    }
}

/// Joins strings.
pub fn join(v: &Vec<String>, sep: &str) -> (s: String)
    ensures
        s@ == joined(views(v@), sep@),
{
    let ghost all = views(v@);
    let mut s = String::new();
    let mut i: usize = 0;
    while i < v.len()
        invariant
            i <= v@.len(),
            all == views(v@),
            s@ == joined(all.take(i as int), sep@),
        decreases v@.len() - i,
    {
        assert(all.take(i + 1).drop_last() == all.take(i as int));
        assert(all.take(i + 1).last() == v@[i as int]@);
        if i == 0 {
            s = v[i].clone();
        } else {
            s.append(sep);
            s.append(v[i].as_str());
        }
        i += 1;
    }
    assert(all.take(i as int) == all);
    s
}

/// A text without a separator is its only part.
pub proof fn lemma_one_part(s: Seq<char>, sep: char)
    requires
        !s.contains(sep),
    ensures
        parts(s, sep) == seq![s],
    decreases s.len(),
{
    if s.len() > 0 {
        let f = s.drop_last();
        assert(s[s.len() - 1] == s.last());
        assert forall|i: int| 0 <= i < f.len() implies f[i] != sep by {
            assert(s[i] == f[i]);
        }
        lemma_one_part(f, sep);
        assert(seq![f].drop_last().push(f.push(s.last())) =~= seq![s]) by {
            assert(f.push(s.last()) =~= s);
        }
    } else {
        assert(s =~= Seq::empty());
    }
}

/// The parts of two texts with a separator between them.
pub proof fn lemma_parts_of_two(a: Seq<char>, b: Seq<char>, sep: char)
    ensures
        parts(a + seq![sep] + b, sep) == parts(a, sep) + parts(b, sep),
        parts(b, sep).len() > 0,
    decreases b.len(),
{
    let whole = a + seq![sep] + b;
    if b.len() == 0 {
        assert(whole.drop_last() =~= a);
        assert(whole.last() == sep);
        assert(parts(a, sep).push(Seq::empty()) =~= parts(a, sep) + seq![Seq::empty()]);
    } else {
        let f = b.drop_last();
        lemma_parts_of_two(a, f, sep);
        assert(whole.drop_last() =~= a + seq![sep] + f);
        assert(whole.last() == b.last());
        let x = parts(a, sep);
        let y = parts(f, sep);
        assert((x + y).last() == y.last());
        assert((x + y).push(Seq::empty()) =~= x + y.push(Seq::empty()));
        assert((x + y).drop_last().push(y.last().push(b.last())) =~= x + y.drop_last().push(
            y.last().push(b.last()),
        ));
    }
}

/// Splitting texts that were joined gives them back, where none holds the separator.
pub proof fn law_split_undoes_join(p: Seq<Seq<char>>, sep: char)
    requires
        p.len() > 0,
        forall|i: int| 0 <= i < p.len() ==> !(#[trigger] p[i]).contains(sep),
    ensures
        parts(joined(p, seq![sep]), sep) == p,
    decreases p.len(),
{
    if p.len() == 1 {
        lemma_one_part(p[0], sep);
        assert(seq![p[0]] =~= p);
    } else {
        let f = p.drop_last();
        assert forall|i: int| 0 <= i < f.len() implies !(#[trigger] f[i]).contains(sep) by {
            assert(p[i] == f[i]);
        }
        law_split_undoes_join(f, sep);
        assert(p[p.len() - 1] == p.last());
        lemma_one_part(p.last(), sep);
        lemma_parts_of_two(joined(f, seq![sep]), p.last(), sep);
        assert(f + seq![p.last()] =~= p);
    }
}

/// Appends a string to a list.
pub fn push_string(v: &mut Vec<String>, s: String)
    ensures
        views(final(v)@) == views(old(v)@).push(s@),
{
    let ghost before = v@;
    v.push(s);
    assert(views(v@) =~= views(before).push(s@));
}

/// Appends copies of strings to a list.
pub fn append_strings(v: &mut Vec<String>, more: &Vec<String>)
    ensures
        views(final(v)@) == views(old(v)@) + views(more@),
{
    let ghost start = views(v@);
    let mut i: usize = 0;
    while i < more.len()
        invariant
            i <= more@.len(),
            views(v@) == start + views(more@).take(i as int),
        decreases more@.len() - i,
    {
        push_string(v, more[i].clone());
        assert(views(more@).take(i + 1) =~= views(more@).take(i as int).push(more@[i as int]@));
        i += 1;
    }
    assert(views(more@).take(i as int) =~= views(more@));
}

/// A list without strings.
pub fn no_strings() -> (v: Vec<String>)
    ensures
        views(v@) == Seq::<Seq<char>>::empty(),
        v@.len() == 0,
{
    let v: Vec<String> = Vec::new();
    assert(views(v@) =~= Seq::<Seq<char>>::empty());
    v
}

/// A copy of a list of strings.
pub fn copy_strings(v: &Vec<String>) -> (out: Vec<String>)
    ensures
        views(out@) == views(v@),
{
    let mut out = no_strings();
    let mut i: usize = 0;
    while i < v.len()
        invariant
            i <= v@.len(),
            views(out@) == views(v@).take(i as int),
        decreases v@.len() - i,
    {
        push_string(&mut out, v[i].clone());
        assert(views(v@).take(i + 1) =~= views(v@).take(i as int).push(v@[i as int]@));
        i += 1;
    }
    assert(views(v@).take(i as int) =~= views(v@));
    out
}

/// Whether a list of strings holds the text.
pub fn has_string(v: &Vec<String>, s: &str) -> (r: bool)
    ensures
        r == views(v@).contains(s@),
{
    let mut i: usize = 0;
    while i < v.len()
        invariant
            i <= v@.len(),
            forall|j: int| 0 <= j < i ==> views(v@)[j] != s@,
        decreases v@.len() - i,
    {
        if same(v[i].as_str(), s) {
            assert(views(v@)[i as int] == s@);
            return true;
        }
        i += 1;
    }
    false
}

/// The longest beginning of a text that takes at most `n` bytes.
pub open spec fn byte_prefix(s: Seq<char>, n: int) -> Seq<char>
    decreases s.len(),
{
    if s.len() == 0 || encode_utf8(s).len() <= n {
        s
    } else {
        byte_prefix(s.drop_last(), n)
    }
}

/// Computes [`byte_prefix`].
pub fn first_bytes(s: &str, n: usize) -> (out: String)
    ensures
        out@ == byte_prefix(s@, n as int),
{
    let chars = chars_of(s);
    let mut k: usize = chars.len();
    assert(chars@.take(k as int) == s@);
    loop
        invariant
            k <= chars@.len(),
            chars@ == s@,
            byte_prefix(s@, n as int) == byte_prefix(chars@.take(k as int), n as int),
        decreases k,
    {
        let t = string_range(&chars, 0, k);
        assert(t@ == chars@.take(k as int));
        if k == 0 || bytes_of(t.as_str()).len() <= n {
            return t;
        }
        assert(chars@.take(k as int).drop_last() == chars@.take(k - 1));
        k -= 1;
    }
}

} // verus!
