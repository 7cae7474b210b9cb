//! Paths as texts, with `/` between their components.

use crate::text;
use vstd::prelude::*;
use vstd::string::*;

verus! {

/// A path that starts at the root.
pub open spec fn absolute(p: Seq<char>) -> bool {
    p.len() > 0 && p[0] == '/'
}

/// Whether a path starts at the root.
pub fn is_absolute(p: &str) -> (r: bool)
    ensures
        r == absolute(p@),
{
    let c = text::chars_of(p);
    c.len() > 0 && c[0] == '/'
}

/// A path below another. An absolute one stands for itself.
pub open spec fn joined(base: Seq<char>, name: Seq<char>) -> Seq<char> {
    if absolute(name) || base.len() == 0 {
        name
    } else if base.last() == '/' {
        base + name
    } else {
        base + "/"@ + name
    }
}

/// A path below another. An absolute one stands for itself.
pub fn join(base: &str, name: &str) -> (r: String)
    ensures
        r@ == joined(base@, name@),
{
    let b = text::chars_of(base);
    if is_absolute(name) || b.len() == 0 {
        return name.to_owned();
    }
    if b[b.len() - 1] == '/' {
        base.to_owned().concat(name)
    } else {
        base.to_owned().concat("/").concat(name)
    }
}

/// Where the named components of a path start: behind the root, or behind a
/// leading `.`.
pub open spec fn body_start(p: Seq<char>) -> int {
    if absolute(p) {
        1
    } else if p.len() > 0 && p[0] == '.' && (p.len() == 1 || p[1] == '/') {
        1
    } else {
        0
    }
}

/// Where the last component of a path starts, with the separator before it.
pub open spec fn cut(p: Seq<char>, start: int) -> int {
    match text::rfind(p.skip(start), '/') {
        Some(i) => start + i,
        None => start,
    }
}

/// The text of the last component of a path.
pub open spec fn last_part(p: Seq<char>, start: int) -> Seq<char> {
    match text::rfind(p.skip(start), '/') {
        Some(i) => p.skip(start + i + 1),
        None => p.skip(start),
    }
}

/// A path without the components at its end that name nothing: empty ones and
/// `.`.
pub open spec fn shortened(p: Seq<char>, start: int) -> Seq<char>
    decreases p.len(),
{
    let last = last_part(p, start);
    if p.len() > start >= 0 && (last.len() == 0 || last == seq!['.']) && 0 <= cut(
        p,
        start,
    ) < p.len() {
        shortened(p.take(cut(p, start)), start)
    } else {
        p
    }
}

/// The path that a path is in: the path without its last component. The root and
/// the empty path are in none.
pub open spec fn parent(p: Seq<char>) -> Option<Seq<char>> {
    let start = body_start(p);
    let q = shortened(p, start);
    if q.len() > start {
        Some(shortened(q.take(cut(q, start)), start))
    } else if start == 1 && !absolute(p) {
        Some(Seq::empty())
    } else {
        None
    }
}

fn tail_of(c: &Vec<char>, lo: usize) -> (out: Vec<char>)
    requires
        lo <= c@.len(),
    ensures
        out@ == c@.skip(lo as int),
{
    let mut out: Vec<char> = Vec::new();
    let mut i: usize = lo;
    while i < c.len()
        invariant
            lo <= i <= c@.len(),
            out@ == c@.subrange(lo as int, i as int),
        decreases c@.len() - i,
    {
        out.push(c[i]);
        i += 1;
    }
    out
}

proof fn lemma_rfind(s: Seq<char>, c: char)
    ensures
        text::rfind(s, c) matches Some(i) ==> 0 <= i < s.len(),
    decreases s.len(),
{
    if s.len() > 0 {
        lemma_rfind(s.drop_last(), c);
    }
}

proof fn lemma_shortened(p: Seq<char>, start: int)
    requires
        0 <= start <= p.len(),
    ensures
        shortened(p, start).is_prefix_of(p),
        start <= shortened(p, start).len(),
    decreases p.len(),
{
    lemma_rfind(p.skip(start), '/');
    let last = last_part(p, start);
    if p.len() > start && (last.len() == 0 || last == seq!['.']) && cut(p, start) < p.len() {
        lemma_shortened(p.take(cut(p, start)), start);
    }
}

fn last_cut(c: &Vec<char>, start: usize) -> (r: (usize, bool))
    requires
        start < c@.len(),
    ensures
        r.0 == cut(c@, start as int),
        start <= r.0 < c@.len(),
        r.1 == (last_part(c@, start as int).len() == 0 || last_part(c@, start as int) == seq!['.']),
{
    proof {
        lemma_rfind(c@.skip(start as int), '/');
    }
    let n: usize = c.len();
    let body = tail_of(c, start);
    assert(body@.len() + start == n);
    let (at, from): (usize, usize) = match text::rfind_char(&body, '/') {
        Some(i) => (start + i, start + i + 1),
        None => (start, start),
    };
    let last = tail_of(c, from);
    let nothing = last.len() == 0 || (last.len() == 1 && last[0] == '.');
    proof {
        if last@.len() == 1 && last@[0] == '.' {
            assert(last@ =~= seq!['.']);
        }
    }
    (at, nothing)
}

fn shorten(p: Vec<char>, start: usize) -> (r: Vec<char>)
    requires
        start <= p@.len(),
    ensures
        r@ == shortened(p@, start as int),
        start <= r@.len(),
{
    let mut c = p;
    while c.len() > start
        invariant
            start <= c@.len(),
            shortened(c@, start as int) == shortened(p@, start as int),
        ensures
            start <= c@.len(),
            c@ == shortened(p@, start as int),
        decreases c@.len(),
    {
        let (at, nothing) = last_cut(&c, start);
        if !nothing {
            break;
        }
        let ghost was = c@;
        c.truncate(at);
        assert(c@ == was.take(at as int));
    }
    c
}

/// The path that a path is in.
pub fn parent_of(p: &str) -> (r: Option<String>)
    ensures
        text::opt_view(r) == parent(p@),
{
    let c = text::chars_of(p);
    let rooted = c.len() > 0 && c[0] == '/';
    let dotted = c.len() > 0 && c[0] == '.' && (c.len() == 1 || c[1] == '/');
    let start: usize = if rooted || dotted {
        1
    } else {
        0
    };
    let mut q = shorten(c, start);
    if q.len() > start {
        let (at, _nothing) = last_cut(&q, start);
        let ghost was = q@;
        q.truncate(at);
        assert(q@ == was.take(at as int));
        let q = shorten(q, start);
        let n: usize = q.len();
        let s = text::string_range(&q, 0, n);
        assert(q@.subrange(0, n as int) =~= q@);
        Some(s)
    } else if start == 1 && !rooted {
        let s = String::new();
        assert(s@ =~= Seq::empty());
        Some(s)
    } else {
        None
    }
}

/// The name of what a path leads to: its last component, if that is a name.
pub open spec fn file_name(p: Seq<char>) -> Option<Seq<char>> {
    let start = body_start(p);
    let q = shortened(p, start);
    if q.len() > start && last_part(q, start) != seq!['.', '.'] {
        Some(last_part(q, start))
    } else {
        None
    }
}

/// The name of what a path leads to.
pub fn file_name_of(p: &str) -> (r: Option<String>)
    ensures
        text::opt_view(r) == file_name(p@),
{
    let c = text::chars_of(p);
    let rooted = c.len() > 0 && c[0] == '/';
    let dotted = c.len() > 0 && c[0] == '.' && (c.len() == 1 || c[1] == '/');
    let start: usize = if rooted || dotted {
        1
    } else {
        0
    };
    let q = shorten(c, start);
    if q.len() == start {
        return None;
    }
    let n: usize = q.len();
    let body = tail_of(&q, start);
    proof {
        lemma_rfind(body@, '/');
    }
    assert(body@.len() + start == n);
    let from: usize = match text::rfind_char(&body, '/') {
        Some(i) => start + i + 1,
        None => start,
    };
    let last = text::string_range(&q, from, n);
    assert(last@ =~= last_part(q@, start as int));
    if text::same(last.as_str(), "..") {
        proof {
            reveal_strlit("..");
            assert(last@ =~= seq!['.', '.']);
        }
        return None;
    }
    proof {
        reveal_strlit("..");
        if last@ == seq!['.', '.'] {
            assert(last@ =~= ".."@);
        }
    }
    Some(last)
}

proof fn lemma_rfind_suffix(s: Seq<char>, e: Seq<char>)
    requires
        !e.contains('/'),
    ensures
        text::rfind(s + e, '/') == text::rfind(s, '/'),
    decreases e.len(),
{
    if e.len() > 0 {
        assert((s + e).drop_last() =~= s + e.drop_last());
        assert(!e.drop_last().contains('/')) by {
            if e.drop_last().contains('/') {
                let i = choose|i: int| 0 <= i < e.len() - 1 && e.drop_last()[i] == '/';
                assert(e[i] == '/');
            }
        }
        lemma_rfind_suffix(s, e.drop_last());
        assert((s + e).last() == e.last());
        assert(e[e.len() - 1] != '/');
    } else {
        assert(s + e =~= s);
    }
}

/// A file whose name is another name with an ending stands beside it: both are in
/// the same directory.
pub proof fn law_endings_keep_the_directory(p: Seq<char>, ending: Seq<char>)
    requires
        p.len() > body_start(p),
        last_part(p, body_start(p)).len() > 0,
        last_part(p, body_start(p)) != seq!['.'],
        ending.len() >= 2,
        !ending.contains('/'),
    ensures
        parent(p + ending) == parent(p),
{
    let start = body_start(p);
    let q = p + ending;
    assert(ending[0] != '/');
    assert(q[0] == p[0]);
    assert(body_start(q) == start);
    lemma_rfind(p.skip(start), '/');
    assert(q.skip(start) =~= p.skip(start) + ending);
    lemma_rfind_suffix(p.skip(start), ending);
    assert(cut(q, start) == cut(p, start));
    let last = last_part(q, start);
    assert(last =~= last_part(p, start) + ending);
    assert(last.len() > 2);
    assert(shortened(q, start) == q);
    assert(shortened(p, start) == p);
    assert(q.take(cut(q, start)) =~= p.take(cut(p, start)));
}

} // verus!
