//! What holds of texts that are cut, trimmed and searched.

use crate::number;
use crate::text;
use vstd::prelude::*;

verus! {

proof fn lemma_trim_start(s: Seq<char>) -> (lo: int)
    ensures
        0 <= lo <= s.len(),
        text::trim_start(s) == s.skip(lo),
        forall|i: int| 0 <= i < lo ==> text::is_space(#[trigger] s[i]),
        lo < s.len() ==> !text::is_space(s[lo]),
    decreases s.len(),
{
    if s.len() > 0 && text::is_space(s[0]) {
        let rest = s.skip(1);
        let k = lemma_trim_start(rest);
        assert(rest.skip(k) =~= s.skip(k + 1));
        assert forall|i: int| 0 <= i < k + 1 implies text::is_space(#[trigger] s[i]) by {
            if i > 0 {
                assert(rest[i - 1] == s[i]);
            }
        }
        if k < rest.len() {
            assert(rest[k] == s[k + 1]);
        }
        k + 1
    } else {
        assert(s.skip(0) =~= s);
        0
    }
}

proof fn lemma_trim_end(s: Seq<char>) -> (hi: int)
    ensures
        0 <= hi <= s.len(),
        text::trim_end(s) == s.take(hi),
        forall|i: int| hi <= i < s.len() ==> text::is_space(#[trigger] s[i]),
        hi > 0 ==> !text::is_space(s[hi - 1]),
    decreases s.len(),
{
    if s.len() > 0 && text::is_space(s.last()) {
        let rest = s.drop_last();
        let k = lemma_trim_end(rest);
        assert(rest.take(k) =~= s.take(k));
        assert forall|i: int| k <= i < s.len() implies text::is_space(#[trigger] s[i]) by {
            if i < rest.len() {
                assert(rest[i] == s[i]);
            }
        }
        k
    } else {
        assert(s.take(s.len() as int) =~= s);
        s.len() as int
    }
}

/// Trimming takes white space off both ends and nothing else: what is left is one
/// stretch of the text, all around it is white space, and it neither begins nor ends
/// with any.
pub proof fn law_trimming_takes_white_space_off_the_ends(s: Seq<char>) -> (r: (int, int))
    ensures
        0 <= r.0 <= r.1 <= s.len(),
        text::trimmed(s) == s.subrange(r.0, r.1),
        forall|i: int| 0 <= i < r.0 || r.1 <= i < s.len() ==> text::is_space(#[trigger] s[i]),
        r.0 < r.1 ==> !text::is_space(s[r.0]) && !text::is_space(s[r.1 - 1]),
        text::is_space(' ') && text::is_space('\t') && text::is_space('\n') && text::is_space('\r'),
        forall|c: char| 'a' <= c <= 'z' || 'A' <= c <= 'Z' || '0' <= c <= '9' ==> !#[trigger] text::is_space(
            c,
        ),
        forall|c: char| '!' <= c <= '/' || c == ':' || c == '[' || c == ']' ==> !#[trigger] text::is_space(
            c,
        ),
{
    let lo = lemma_trim_start(s);
    let rest = s.skip(lo);
    let n = lemma_trim_end(rest);
    let hi = lo + n;
    assert(rest.take(n) =~= s.subrange(lo, hi));
    assert forall|i: int| 0 <= i < lo || hi <= i < s.len() implies text::is_space(
        #[trigger] s[i],
    ) by {
        if i >= hi {
            assert(rest[i - lo] == s[i]);
        }
    }
    if n > 0 {
        assert(rest[n - 1] == s[hi - 1]);
    }
    (lo, hi)
}

/// A text without white space at its ends is as it was once it is trimmed.
pub proof fn law_trimmed_texts_stay(s: Seq<char>)
    requires
        s.len() > 0 ==> !text::is_space(s[0]) && !text::is_space(s.last()),
    ensures
        text::trimmed(s) == s,
        text::trimmed(text::trimmed(s)) == text::trimmed(s),
{
}

/// The parts of a text, joined by the separator, are the text, and none of them holds
/// the separator: nothing is lost and every separator is found.
pub proof fn law_join_undoes_split(s: Seq<char>, sep: char)
    ensures
        text::joined(text::parts(s, sep), seq![sep]) == s,
        text::parts(s, sep).len() > 0,
        forall|i: int|
            0 <= i < text::parts(s, sep).len() ==> !(#[trigger] text::parts(s, sep)[i]).contains(
                sep,
            ),
    decreases s.len(),
{
    let p = text::parts(s, sep);
    let one = seq![sep];
    if s.len() > 0 {
        let r = s.drop_last();
        law_join_undoes_split(r, sep);
        let q = text::parts(r, sep);
        if s.last() == sep {
            assert(p.drop_last() =~= q);
            assert(text::joined(p, one) =~= s);
        } else {
            assert(p.drop_last() =~= q.drop_last());
            assert(p.last() == q.last().push(s.last()));
            assert(text::joined(p, one) =~= text::joined(q, one).push(s.last()));
            assert(r.push(s.last()) =~= s);
            assert forall|i: int| 0 <= i < p.len() implies !(#[trigger] p[i]).contains(sep) by {
                if i < p.len() - 1 {
                    assert(p[i] == q[i]);
                } else if p[i].contains(sep) {
                    let k = choose|k: int| 0 <= k < p[i].len() && p[i][k] == sep;
                    assert(q.last()[k] == sep);
                    assert(!q[q.len() - 1].contains(sep));
                }
            }
        }
    }
}

proof fn lemma_find_from(s: Seq<char>, c: char, from: int)
    requires
        0 <= from,
    ensures
        (match text::find_from(s, c, from) {
            Some(k) => from <= k < s.len() && s[k] == c && forall|j: int|
                from <= j < k ==> #[trigger] s[j] != c,
            None => forall|j: int| from <= j < s.len() ==> #[trigger] s[j] != c,
        }),
    decreases s.len() - from,
{
    if from < s.len() && s[from] != c {
        lemma_find_from(s, c, from + 1);
    }
}

/// The first place of a character holds it, and no place before does; there is none
/// exactly where the text does not hold the character.
pub proof fn law_the_first_place_is_found(s: Seq<char>, c: char)
    ensures
        (match text::find(s, c) {
            Some(k) => 0 <= k < s.len() && s[k] == c && !s.take(k).contains(c),
            None => !s.contains(c),
        }),
{
    lemma_find_from(s, c, 0);
    if let Some(k) = text::find(s, c) {
        if s.take(k).contains(c) {
            let j = choose|j: int| 0 <= j < k && s.take(k)[j] == c;
            assert(s[j] == c);
        }
    }
}

/// The last place of a character holds it, and no place behind does.
pub proof fn law_the_last_place_is_found(s: Seq<char>, c: char)
    ensures
        (match text::rfind(s, c) {
            Some(k) => 0 <= k < s.len() && s[k] == c && !s.skip(k + 1).contains(c),
            None => !s.contains(c),
        }),
    decreases s.len(),
{
    if s.len() > 0 && s.last() != c {
        law_the_last_place_is_found(s.drop_last(), c);
        let r = s.drop_last();
        match text::rfind(s, c) {
            Some(k) => {
                let t = s.skip(k + 1);
                if t.contains(c) {
                    let j = choose|j: int| 0 <= j < t.len() && t[j] == c;
                    assert(r.skip(k + 1)[j] == c);
                }
            },
            None => {
                if s.contains(c) {
                    let j = choose|j: int| 0 <= j < s.len() && s[j] == c;
                    assert(r[j] == c);
                }
            },
        }
    }
}

proof fn lemma_open_words(s: Seq<char>)
    ensures
        forall|i: int|
            0 <= i < text::open_words(s).0.len() ==> (#[trigger] text::open_words(s).0[i]).len() > 0,
        forall|i: int, k: int|
            0 <= i < text::open_words(s).0.len() && 0 <= k < text::open_words(s).0[i].len()
                ==> !text::is_space(#[trigger] text::open_words(s).0[i][k]),
        forall|k: int|
            0 <= k < text::open_words(s).1.len() ==> !text::is_space(
                #[trigger] text::open_words(s).1[k],
            ),
    decreases s.len(),
{
    if s.len() > 0 {
        let r = s.drop_last();
        lemma_open_words(r);
        let a = text::open_words(r);
        let b = text::open_words(s);
        assert forall|i: int| 0 <= i < b.0.len() implies (#[trigger] b.0[i]).len() > 0 by {
            if i < a.0.len() {
                assert(b.0[i] == a.0[i]);
            }
        }
        assert forall|i: int, k: int| 0 <= i < b.0.len() && 0 <= k < b.0[i].len() implies !text::is_space(
            #[trigger] b.0[i][k],
        ) by {
            if i < a.0.len() {
                assert(b.0[i] == a.0[i]);
                assert(!text::is_space(a.0[i][k]));
            } else {
                assert(b.0[i] == a.1);
                assert(!text::is_space(a.1[k]));
            }
        }
        assert forall|k: int| 0 <= k < b.1.len() implies !text::is_space(#[trigger] b.1[k]) by {
            if k < a.1.len() && b.1.len() > 0 {
                assert(b.1[k] == a.1[k]);
            }
        }
    }
}

proof fn lemma_open_words_of_two(a: Seq<char>, b: Seq<char>)
    requires
        a.len() > 0,
        text::is_space(a.last()),
    ensures
        text::open_words(a).1.len() == 0,
        text::open_words(a + b).0 == text::open_words(a).0 + text::open_words(b).0,
        text::open_words(a + b).1 == text::open_words(b).1,
    decreases b.len(),
{
    let x = text::open_words(a).0;
    if b.len() == 0 {
        assert(a + b =~= a);
        assert(x + text::open_words(b).0 =~= x);
        assert(text::open_words(a).1 =~= text::open_words(b).1);
    } else {
        let r = b.drop_last();
        lemma_open_words_of_two(a, r);
        assert((a + b).drop_last() =~= a + r);
        assert((a + b).last() == b.last());
        let y = text::open_words(r);
        assert(x + y.0.push(y.1) =~= (x + y.0).push(y.1));
    }
}

proof fn lemma_one_open_word(w: Seq<char>)
    requires
        forall|k: int| 0 <= k < w.len() ==> !text::is_space(#[trigger] w[k]),
    ensures
        text::open_words(w) == (Seq::<Seq<char>>::empty(), w),
    decreases w.len(),
{
    if w.len() > 0 {
        let r = w.drop_last();
        assert forall|k: int| 0 <= k < r.len() implies !text::is_space(#[trigger] r[k]) by {
            assert(r[k] == w[k]);
        }
        lemma_one_open_word(r);
        assert(!text::is_space(w[w.len() - 1]));
        assert(r.push(w.last()) =~= w);
    }
}

/// The words of a text that is cut after white space are those of the one piece and
/// then those of the other. A stretch without white space is one word; white space is
/// none. So every word is found, in order.
pub proof fn law_words_are_found_piece_by_piece(a: Seq<char>, b: Seq<char>, w: Seq<char>)
    ensures
        a.len() > 0 && text::is_space(a.last()) ==> text::word_list(a + b) == text::word_list(a)
            + text::word_list(b),
        w.len() > 0 && (forall|k: int| 0 <= k < w.len() ==> !text::is_space(#[trigger] w[k]))
            ==> text::word_list(w) == seq![w],
        (forall|k: int| 0 <= k < w.len() ==> text::is_space(#[trigger] w[k])) ==> text::word_list(
            w,
        ).len() == 0,
        forall|i: int|
            0 <= i < text::word_list(a).len() ==> (#[trigger] text::word_list(a)[i]).len() > 0,
        forall|i: int, k: int|
            0 <= i < text::word_list(a).len() && 0 <= k < text::word_list(a)[i].len()
                ==> !text::is_space(#[trigger] text::word_list(a)[i][k]),
    decreases w.len(),
{
    if a.len() > 0 && text::is_space(a.last()) {
        lemma_open_words_of_two(a, b);
        let x = text::open_words(a).0;
        let y = text::open_words(b);
        assert(x + y.0.push(y.1) =~= (x + y.0).push(y.1));
    }
    if forall|k: int| 0 <= k < w.len() ==> !text::is_space(#[trigger] w[k]) {
        lemma_one_open_word(w);
        assert(Seq::<Seq<char>>::empty().push(w) =~= seq![w]);
    }
    if forall|k: int| 0 <= k < w.len() ==> text::is_space(#[trigger] w[k]) {
        lemma_no_open_word(w);
    }
    lemma_open_words(a);
    let l = text::word_list(a);
    let o = text::open_words(a);
    assert forall|i: int| 0 <= i < l.len() implies (#[trigger] l[i]).len() > 0 by {
        if i < o.0.len() {
            assert(l[i] == o.0[i]);
        }
    }
    assert forall|i: int, k: int| 0 <= i < l.len() && 0 <= k < l[i].len() implies !text::is_space(
        #[trigger] l[i][k],
    ) by {
        if i < o.0.len() {
            assert(!text::is_space(o.0[i][k]));
        } else {
            assert(!text::is_space(o.1[k]));
        }
    }
}

proof fn lemma_no_open_word(w: Seq<char>)
    requires
        forall|k: int| 0 <= k < w.len() ==> text::is_space(#[trigger] w[k]),
    ensures
        text::open_words(w).0.len() == 0,
        text::open_words(w).1.len() == 0,
    decreases w.len(),
{
    if w.len() > 0 {
        let r = w.drop_last();
        assert forall|k: int| 0 <= k < r.len() implies text::is_space(#[trigger] r[k]) by {
            assert(r[k] == w[k]);
        }
        lemma_no_open_word(r);
        assert(text::is_space(w[w.len() - 1]));
    }
}

/// Lines with a line feed behind each are read back, and so is a last line without one.
/// A carriage return before a line feed belongs to the end of the line.
pub proof fn law_lines_are_read_back(lines: Seq<Seq<char>>, last: Seq<char>)
    requires
        forall|i: int|
            0 <= i < lines.len() ==> !(#[trigger] lines[i]).contains('\n') && (lines[i].len() > 0
                ==> lines[i].last() != '\r'),
        !last.contains('\n'),
    ensures
        text::line_list(text::joined(lines.push(last), seq!['\n'])) == (if last.len() == 0 {
            lines
        } else {
            lines.push(last)
        }),
        forall|l: Seq<char>| l.len() == 0 || l.last() != '\r' ==> #[trigger] text::without_return(
            l.push('\r'),
        ) == l,
{
    let p = lines.push(last);
    assert forall|i: int| 0 <= i < p.len() implies !(#[trigger] p[i]).contains('\n') by {
        if i < lines.len() {
            assert(p[i] == lines[i]);
        }
    }
    text::law_split_undoes_join(p, '\n');
    assert(p.drop_last() =~= lines);
    let full = lines.map_values(|l: Seq<char>| text::without_return(l));
    assert(full =~= lines) by {
        assert forall|i: int| 0 <= i < lines.len() implies #[trigger] full[i] == lines[i] by {
            assert(text::without_return(lines[i]) == lines[i]);
        }
    }
    assert forall|l: Seq<char>| l.len() == 0 || l.last() != '\r' implies #[trigger] text::without_return(
        l.push('\r'),
    ) == l by {
        assert(l.push('\r').drop_last() =~= l);
    }
}

/// Making letters small changes the ASCII capitals and nothing else, and making them
/// capitals again undoes it where there was no small letter.
pub proof fn law_letters_change_their_case_alone(s: Seq<char>, i: int)
    requires
        0 <= i < s.len(),
    ensures
        text::ascii_lower(s).len() == s.len(),
        text::ascii_upper(s).len() == s.len(),
        'A' <= s[i] <= 'Z' ==> text::ascii_lower(s)[i] as u32 == s[i] as u32 + 32
            && text::ascii_upper(text::ascii_lower(s))[i] == s[i],
        'a' <= s[i] <= 'z' ==> text::ascii_upper(s)[i] as u32 == s[i] as u32 - 32
            && text::ascii_lower(text::ascii_upper(s))[i] == s[i],
        !('A' <= s[i] <= 'Z') ==> text::ascii_lower(s)[i] == s[i],
        !('a' <= s[i] <= 'z') ==> text::ascii_upper(s)[i] == s[i],
{
}

/// A number is read from its digits, with or without a plus before them, exactly where
/// it is not above the greatest that is allowed; nothing else is a number.
pub proof fn law_only_digits_are_numbers(s: Seq<char>, n: nat, max: nat)
    ensures
        n <= max ==> number::unsigned(number::decimal(n), max) == Some(n),
        n <= max ==> number::unsigned(seq!['+'] + number::decimal(n), max) == Some(n),
        n > max ==> number::unsigned(number::decimal(n), max) is None,
        number::unsigned(s, max) matches Some(m) ==> m <= max,
        s.len() == 0 ==> number::unsigned(s, max) is None,
        (exists|i: int|
            0 <= i < s.len() && !('0' <= #[trigger] s[i] <= '9') && (i > 0 || s[i] != '+'))
            ==> number::unsigned(s, max) is None,
{
    let d = number::decimal(n);
    number::lemma_decimal(n);
    assert(number::is_digit(d[0]));
    assert((seq!['+'] + d).skip(1) =~= d);
    if exists|i: int|
        0 <= i < s.len() && !('0' <= #[trigger] s[i] <= '9') && (i > 0 || s[i] != '+') {
        let i = choose|i: int|
            0 <= i < s.len() && !('0' <= #[trigger] s[i] <= '9') && (i > 0 || s[i] != '+');
        if s[0] == '+' {
            assert(s.skip(1)[i - 1] == s[i]);
            assert(!number::is_digit(s.skip(1)[i - 1]));
        } else {
            assert(!number::is_digit(s[i]));
        }
    }
}

} // verus!
