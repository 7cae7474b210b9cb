//! The key-value text that settings frames carry: one `key=value` per line.

use crate::text;
use vstd::prelude::*;
use vstd::string::*;
use vstd::utf8::*;

verus! {

/// A list of keys with their values, each key once, in the order of insertion.
pub type Entries = Seq<(Seq<char>, Seq<char>)>;

/// Whether the list has the key.
pub open spec fn has_key(e: Entries, k: Seq<char>) -> bool {
    exists|i: int| 0 <= i < e.len() && (#[trigger] e[i]).0 == k
}

/// The value of the key.
pub open spec fn lookup(e: Entries, k: Seq<char>) -> Option<Seq<char>>
    decreases e.len(),
{
    if e.len() == 0 {
        None
    } else if e.last().0 == k {
        Some(e.last().1)
    } else {
        lookup(e.drop_last(), k)
    }
}

/// The list with the key set to the value.
pub open spec fn put(e: Entries, k: Seq<char>, v: Seq<char>) -> Entries {
    if has_key(e, k) {
        e.map_values(
            |x: (Seq<char>, Seq<char>)|
                if x.0 == k {
                    (k, v)
                } else {
                    x
                },
        )
    } else {
        e.push((k, v))
    }
}

/// The list with every entry of another list set, in its order.
pub open spec fn put_all(e: Entries, more: Entries) -> Entries
    decreases more.len(),
{
    if more.len() == 0 {
        e
    } else {
        put(put_all(e, more.drop_last()), more.last().0, more.last().1)
    }
}

/// A line as key and value: what stands before and after its first `=`.
pub open spec fn pair_of(line: Seq<char>) -> Option<(Seq<char>, Seq<char>)> {
    let p = text::parts(line, '=');
    if p.len() < 2 {
        None
    } else {
        Some((p[0], line.skip(p[0].len() as int + 1)))
    }
}

/// The entries of a list of lines; a line without `=` says nothing.
pub open spec fn entries_of(lines: Seq<Seq<char>>) -> Entries
    decreases lines.len(),
{
    if lines.len() == 0 {
        Seq::empty()
    } else {
        let e = entries_of(lines.drop_last());
        match pair_of(lines.last()) {
            None => e,
            Some((k, v)) => put(e, k, v),
        }
    }
}

/// The text of a list of entries.
pub open spec fn text_of(e: Entries) -> Seq<char>
    decreases e.len(),
{
    if e.len() == 0 {
        Seq::empty()
    } else {
        let line = e.last().0 + "="@ + e.last().1;
        if e.len() == 1 {
            line
        } else {
            text_of(e.drop_last()) + "\n"@ + line
        }
    }
}

/// Settings as they are exchanged at the start of a session.
#[derive(Clone, Debug)]
pub struct StringMap {
    entries: Vec<(String, String)>,
}

pub open spec fn entry_view(x: (String, String)) -> (Seq<char>, Seq<char>) {
    (x.0@, x.1@)
}

impl View for StringMap {
    type V = Entries;

    closed spec fn view(&self) -> Entries {
        self.entries@.map_values(|x: (String, String)| entry_view(x))
    }
}

impl StringMap {
    /// No settings.
    pub fn new() -> (m: StringMap)
        ensures
            m@ == Entries::empty(),
    {
        let m = StringMap { entries: Vec::new() };
        assert(m@ =~= Entries::empty());
        m
    }

    /// Sets a key to a value.
    pub fn insert(&mut self, key: &str, value: &str)
        ensures
            final(self)@ == put(old(self)@, key@, value@),
    {
        let ghost e = self@;
        let ghost replace = |x: (Seq<char>, Seq<char>)|
            if x.0 == key@ {
                (key@, value@)
            } else {
                x
            };
        let mut out: Vec<(String, String)> = Vec::new();
        let mut found = false;
        let mut i: usize = 0;
        while i < self.entries.len()
            invariant
                i <= self.entries@.len(),
                e == self@,
                self.entries@.len() == e.len(),
                replace == (|x: (Seq<char>, Seq<char>)|
                    if x.0 == key@ {
                        (key@, value@)
                    } else {
                        x
                    }),
                out@.len() == i,
                forall|j: int|
                    0 <= j < i ==> entry_view(#[trigger] out@[j]) == replace(
                        entry_view(self.entries@[j]),
                    ),
                found <==> exists|j: int| 0 <= j < i && (#[trigger] e[j]).0 == key@,
            decreases self.entries@.len() - i,
        {
            assert(e[i as int] == entry_view(self.entries@[i as int]));
            if text::same(self.entries[i].0.as_str(), key) {
                found = true;
                out.push((key.to_owned(), value.to_owned()));
            } else {
                out.push((self.entries[i].0.clone(), self.entries[i].1.clone()));
            }
            i += 1;
        }
        if !found {
            out.push((key.to_owned(), value.to_owned()));
        }
        self.entries = out;
        proof {
            if found {
                assert(has_key(e, key@));
                assert(self@ =~= e.map_values(replace));
            } else {
                assert(!has_key(e, key@));
                assert forall|j: int| 0 <= j < e.len() implies self@[j] == e[j] by {
                    assert(e[j].0 != key@);
                }
                assert(self@ =~= e.push((key@, value@)));
            }
        }
    }

    /// The value of a key.
    pub fn get(&self, key: &str) -> (r: Option<String>)
        ensures
            text::opt_view(r) == lookup(self@, key@),
    {
        let mut i: usize = self.entries.len();
        assert(self@.take(i as int) == self@);
        while i > 0
            invariant
                i <= self.entries@.len(),
                self.entries@.len() == self@.len(),
                lookup(self@, key@) == lookup(self@.take(i as int), key@),
            decreases i,
        {
            assert(self@.take(i as int).drop_last() == self@.take(i - 1));
            assert(self@.take(i as int).last() == entry_view(self.entries@[i - 1]));
            if text::same(self.entries[i - 1].0.as_str(), key) {
                return Some(self.entries[i - 1].1.clone());
            }
            i -= 1;
        }
        None
    }

    /// Sets every entry of other settings.
    pub fn insert_all(&mut self, more: &StringMap)
        ensures
            final(self)@ == put_all(old(self)@, more@),
    {
        let ghost e = self@;
        let mut i: usize = 0;
        while i < more.entries.len()
            invariant
                i <= more.entries@.len(),
                more.entries@.len() == more@.len(),
                self@ == put_all(e, more@.take(i as int)),
            decreases more.entries@.len() - i,
        {
            assert(more@.take(i + 1).drop_last() == more@.take(i as int));
            assert(more@.take(i + 1).last() == entry_view(more.entries@[i as int]));
            self.insert(more.entries[i].0.as_str(), more.entries[i].1.as_str());
            i += 1;
        }
        assert(more@.take(i as int) == more@);
    }

    /// Reads settings.
    pub fn from_bytes(bytes: &[u8]) -> (m: StringMap)
        ensures
            m@ == entries_of(text::parts(text::utf8_lossy(bytes@), '\n')),
    {
        let lines = text::split(text::lossy(bytes).as_str(), '\n');
        let ghost all = text::views(lines@);
        let mut m = StringMap::new();
        let mut i: usize = 0;
        while i < lines.len()
            invariant
                i <= lines@.len(),
                all == text::views(lines@),
                m@ == entries_of(all.take(i as int)),
            decreases lines@.len() - i,
        {
            let line = lines[i].as_str();
            assert(all.take(i + 1).drop_last() == all.take(i as int));
            assert(all.take(i + 1).last() == line@);
            let p = text::split(line, '=');
            if p.len() >= 2 {
                assert(text::views(p@)[0] == p@[0]@);
                proof {
                    lemma_first_part(line@, '=');
                }
                let total: usize = line.unicode_len();
                let n: usize = p[0].as_str().unicode_len();
                assert(n + 1 <= total);
                let value = text::skip(line, n + 1);
                m.insert(p[0].as_str(), value.as_str());
            }
            i += 1;
        }
        assert(all.take(i as int) == all);
        m
    }

    /// Writes settings.
    pub fn to_bytes(&self) -> (out: Vec<u8>)
        ensures
            out@ == encode_utf8(text_of(self@)),
    {
        let mut s = String::new();
        let mut i: usize = 0;
        while i < self.entries.len()
            invariant
                i <= self.entries@.len(),
                self.entries@.len() == self@.len(),
                s@ == text_of(self@.take(i as int)),
            decreases self.entries@.len() - i,
        {
            assert(self@.take(i + 1).drop_last() == self@.take(i as int));
            assert(self@.take(i + 1).last() == entry_view(self.entries@[i as int]));
            let line = self.entries[i].0.clone().concat("=").concat(self.entries[i].1.as_str());
            if i > 0 {
                s.append("\n");
                s.append(line.as_str());
            } else {
                s = line;
            }
            i += 1;
        }
        assert(self@.take(i as int) == self@);
        text::bytes_of(s.as_str())
    }
}

/// The first part and the separator behind it fit into the text.
proof fn lemma_first_part(s: Seq<char>, sep: char)
    ensures
        text::parts(s, sep).len() > 0,
        text::parts(s, sep).len() == 1 ==> text::parts(s, sep)[0].len() == s.len(),
        text::parts(s, sep).len() >= 2 ==> text::parts(s, sep)[0].len() + 1 <= s.len(),
    decreases s.len(),
{
    if s.len() > 0 {
        lemma_first_part(s.drop_last(), sep);
    }
}

/// Settings that can be written: no key twice, no `=` in a key, and no line feed.
pub open spec fn writable(e: Entries) -> bool {
    &&& forall|i: int|
        0 <= i < e.len() ==> !(#[trigger] e[i]).0.contains('=') && !e[i].0.contains('\n')
            && !e[i].1.contains('\n')
    &&& forall|i: int, j: int|
        0 <= i < j < e.len() ==> (#[trigger] e[i]).0 != (#[trigger] e[j]).0
}

/// The line of an entry.
pub open spec fn line_of(x: (Seq<char>, Seq<char>)) -> Seq<char> {
    x.0 + "="@ + x.1
}

/// The lines of entries.
pub open spec fn lines_of(e: Entries) -> Seq<Seq<char>> {
    e.map_values(|x: (Seq<char>, Seq<char>)| line_of(x))
}

proof fn lemma_text_is_joined(e: Entries)
    ensures
        text_of(e) == text::joined(lines_of(e), "\n"@),
    decreases e.len(),
{
    if e.len() > 0 {
        assert(lines_of(e).last() == line_of(e.last()));
        assert(lines_of(e)[0] == line_of(e[0]));
        assert(lines_of(e).drop_last() =~= lines_of(e.drop_last()));
        lemma_text_is_joined(e.drop_last());
    }
}

proof fn lemma_line_is_read(x: (Seq<char>, Seq<char>))
    requires
        !x.0.contains('='),
    ensures
        pair_of(line_of(x)) == Some(x),
{
    reveal_strlit("=");
    assert("="@ =~= seq!['=']);
    text::lemma_parts_of_two(x.0, x.1, '=');
    text::lemma_one_part(x.0, '=');
    let p = text::parts(line_of(x), '=');
    assert(p[0] == x.0);
    assert(line_of(x).skip(x.0.len() as int + 1) =~= x.1);
}

proof fn lemma_lines_are_read(e: Entries)
    requires
        writable(e),
    ensures
        entries_of(lines_of(e)) == e,
    decreases e.len(),
{
    if e.len() > 0 {
        let f = e.drop_last();
        assert forall|i: int| 0 <= i < f.len() implies #[trigger] f[i] == e[i] by {}
        assert(writable(f));
        lemma_lines_are_read(f);
        assert(lines_of(e).drop_last() =~= lines_of(f));
        assert(lines_of(e).last() == line_of(e.last()));
        assert(e[e.len() - 1] == e.last());
        lemma_line_is_read(e.last());
        assert(!has_key(f, e.last().0)) by {
            if has_key(f, e.last().0) {
                let i = choose|i: int| 0 <= i < f.len() && (#[trigger] f[i]).0 == e.last().0;
                assert(e[i].0 == e[e.len() - 1].0);
            }
        }
        assert(f.push(e.last()) =~= e);
    } else {
        assert(entries_of(lines_of(e)) =~= e);
    }
}

/// Settings that were written are read back.
pub proof fn law_settings_are_read_back(e: Entries)
    requires
        writable(e),
    ensures
        entries_of(text::parts(text_of(e), '\n')) == e,
{
    lemma_text_is_joined(e);
    let l = lines_of(e);
    if e.len() == 0 {
        text::lemma_one_part(Seq::empty(), '=');
        let none = seq![Seq::<char>::empty()];
        assert(text::parts(text_of(e), '\n') =~= none);
        assert(none.drop_last() =~= Seq::empty());
        assert(entries_of(none) =~= Seq::empty()) by {
            assert(entries_of(none.drop_last()) =~= Seq::empty());
            assert(pair_of(none.last()) is None);
        }
        assert(e =~= Seq::empty());
    } else {
        reveal_strlit("\n");
        assert("\n"@ =~= seq!['\n']);
        reveal_strlit("=");
        assert("="@ =~= seq!['=']);
        assert forall|i: int| 0 <= i < l.len() implies !(#[trigger] l[i]).contains('\n') by {
            let x = e[i];
            assert(l[i] == line_of(x));
            if l[i].contains('\n') {
                let k = choose|k: int| 0 <= k < l[i].len() && l[i][k] == '\n';
                if k < x.0.len() {
                    assert(x.0[k] == '\n');
                } else if k > x.0.len() {
                    assert(x.1[k - x.0.len() - 1] == '\n');
                }
            }
        }
        text::law_split_undoes_join(l, '\n');
        lemma_lines_are_read(e);
    }
}

/// A setting that is put is found, and the others stay; the last value counts. Nothing is
/// found where nothing is.
pub proof fn law_settings_that_are_put_are_found(
    e: Entries,
    k: Seq<char>,
    v: Seq<char>,
    x: Seq<char>,
)
    ensures
        lookup(Seq::empty(), x) is None,
        lookup(put(e, k, v), k) == Some(v),
        x != k ==> lookup(put(e, k, v), x) == lookup(e, x),
        put_all(e, Seq::empty()) == e,
{
    if has_key(e, k) {
        lemma_replaced(e, put(e, k, v), k, v, x);
        lemma_replaced(e, put(e, k, v), k, v, k);
    } else {
        assert(put(e, k, v).drop_last() =~= e);
    }
}

proof fn lemma_replaced(e: Entries, m: Entries, k: Seq<char>, v: Seq<char>, x: Seq<char>)
    requires
        m.len() == e.len(),
        forall|i: int|
            0 <= i < e.len() ==> #[trigger] m[i] == (if e[i].0 == k {
                (k, v)
            } else {
                e[i]
            }),
    ensures
        x != k ==> lookup(m, x) == lookup(e, x),
        has_key(e, k) ==> lookup(m, k) == Some(v),
    decreases e.len(),
{
    if e.len() > 0 {
        let r = e.drop_last();
        assert(m[e.len() - 1] == m.last());
        assert forall|i: int| 0 <= i < r.len() implies #[trigger] m.drop_last()[i] == (if r[i].0
            == k {
            (k, v)
        } else {
            r[i]
        }) by {
            assert(m[i] == m.drop_last()[i]);
        }
        lemma_replaced(r, m.drop_last(), k, v, x);
        if has_key(e, k) && e.last().0 != k {
            let i = choose|i: int| 0 <= i < e.len() && (#[trigger] e[i]).0 == k;
            assert(r[i].0 == k);
            assert(has_key(r, k));
        }
    }
}

/// Settings of another map are put one by one.
pub proof fn law_settings_are_put_one_by_one(e: Entries, more: Entries, x: (Seq<char>, Seq<char>))
    ensures
        put_all(e, more.push(x)) == put(put_all(e, more), x.0, x.1),
        lookup(put_all(e, more.push(x)), x.0) == Some(x.1),
{
    assert(more.push(x).drop_last() =~= more);
    law_settings_that_are_put_are_found(put_all(e, more), x.0, x.1, x.0);
}

/// A line says its key before the first equals sign and its value behind it; a line
/// without one says nothing.
pub proof fn law_lines_say_settings(lines: Seq<Seq<char>>, k: Seq<char>, v: Seq<char>, l: Seq<char>)
    ensures
        !k.contains('=') ==> entries_of(lines.push(k.push('=') + v)) == put(
            entries_of(lines),
            k,
            v,
        ),
        !l.contains('=') ==> entries_of(lines.push(l)) == entries_of(lines),
        entries_of(Seq::empty()).len() == 0,
{
    assert(lines.push(k.push('=') + v).drop_last() =~= lines);
    assert(lines.push(l).drop_last() =~= lines);
    reveal_strlit("=");
    assert(line_of((k, v)) =~= k.push('=') + v);
    if !k.contains('=') {
        lemma_line_is_read((k, v));
    }
    if !l.contains('=') {
        text::lemma_one_part(l, '=');
    }
}

} // verus!
