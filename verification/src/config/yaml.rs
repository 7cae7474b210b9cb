//! YAML values as the configuration holds them, tags left out.

use crate::number;
use crate::text;
use vstd::prelude::*;
use vstd::string::*;

verus! {

/// A number. One that is not an integer is kept as it is written.
#[derive(Clone, Debug)]
pub enum YamlNumber {
    Unsigned(u64),
    Negative(i64),
    Other(String),
}

/// A value.
#[derive(Debug)]
pub enum Yaml {
    Null,
    Bool(bool),
    Number(YamlNumber),
    Text(String),
    Sequence(Vec<Yaml>),
    Mapping(Vec<(Yaml, Yaml)>),
}

/// The options of a proxy: names with values, each name once.
pub type Options = Vec<(String, Yaml)>;

/// The text of a value that is text.
pub open spec fn str_of(y: Yaml) -> Option<Seq<char>> {
    match y {
        Yaml::Text(s) => Some(s@),
        _ => None,
    }
}

/// Whether the value is this text.
pub open spec fn is_text(y: Yaml, k: Seq<char>) -> bool {
    y matches Yaml::Text(s) && s@ == k
}

/// The value under a name from a position on.
pub open spec fn option_from(o: Seq<(String, Yaml)>, k: Seq<char>, from: int) -> Option<Yaml>
    decreases o.len() - from,
{
    if from < 0 || from >= o.len() {
        None
    } else if o[from].0@ == k {
        Some(o[from].1)
    } else {
        option_from(o, k, from + 1)
    }
}

/// The value of an option.
pub open spec fn option(o: Seq<(String, Yaml)>, k: Seq<char>) -> Option<Yaml> {
    option_from(o, k, 0)
}

/// The value under a key from a position on.
pub open spec fn entry_from(m: Seq<(Yaml, Yaml)>, k: Seq<char>, from: int) -> Option<Yaml>
    decreases m.len() - from,
{
    if from < 0 || from >= m.len() {
        None
    } else if is_text(m[from].0, k) {
        Some(m[from].1)
    } else {
        entry_from(m, k, from + 1)
    }
}

/// The value under a key of a mapping; other values have no keys.
pub open spec fn entry(y: Yaml, k: Seq<char>) -> Option<Yaml> {
    match y {
        Yaml::Mapping(m) => entry_from(m@, k, 0),
        _ => None,
    }
}

/// The value under a key of a mapping that may be absent.
pub open spec fn opt_entry(y: Option<Yaml>, k: Seq<char>) -> Option<Yaml> {
    match y {
        Some(v) => entry(v, k),
        None => None,
    }
}

/// The text of a value that may be absent.
pub open spec fn opt_str(y: Option<Yaml>) -> Option<Seq<char>> {
    match y {
        Some(v) => str_of(v),
        None => None,
    }
}

/// The flag of a value that may be absent.
pub open spec fn opt_bool(y: Option<Yaml>) -> Option<bool> {
    match y {
        Some(Yaml::Bool(b)) => Some(b),
        _ => None,
    }
}

/// The number of a value that may be absent, if it is not negative.
pub open spec fn opt_u64(y: Option<Yaml>) -> Option<u64> {
    match y {
        Some(Yaml::Number(YamlNumber::Unsigned(n))) => Some(n),
        _ => None,
    }
}

/// An option that is text.
pub open spec fn str_option(o: Seq<(String, Yaml)>, k: Seq<char>) -> Option<Seq<char>> {
    opt_str(option(o, k))
}

/// An option that is a flag.
pub open spec fn bool_option(o: Seq<(String, Yaml)>, k: Seq<char>) -> Option<bool> {
    opt_bool(option(o, k))
}

/// A flag that is false unless it is set.
pub open spec fn flag(o: Seq<(String, Yaml)>, k: Seq<char>) -> bool {
    bool_option(o, k) == Some(true)
}

/// An option that is a number.
pub open spec fn u64_option(o: Seq<(String, Yaml)>, k: Seq<char>) -> Option<u64> {
    opt_u64(option(o, k))
}

/// The texts of a list; values of other kinds are left out.
pub open spec fn texts(s: Seq<Yaml>) -> Seq<Seq<char>>
    decreases s.len(),
{
    if s.len() == 0 {
        Seq::empty()
    } else {
        match str_of(s.last()) {
            Some(t) => texts(s.drop_last()).push(t),
            None => texts(s.drop_last()),
        }
    }
}

/// The pairs of texts of a mapping; entries of other kinds are left out.
pub open spec fn text_pairs(m: Seq<(Yaml, Yaml)>) -> Seq<(Seq<char>, Seq<char>)>
    decreases m.len(),
{
    if m.len() == 0 {
        Seq::empty()
    } else {
        match (str_of(m.last().0), str_of(m.last().1)) {
            (Some(k), Some(v)) => text_pairs(m.drop_last()).push((k, v)),
            _ => text_pairs(m.drop_last()),
        }
    }
}

/// The views of a list of pairs.
pub open spec fn pair_views(v: Seq<(String, String)>) -> Seq<(Seq<char>, Seq<char>)> {
    v.map_values(|x: (String, String)| (x.0@, x.1@))
}

/// The pairs of texts of a value that may be absent.
pub open spec fn opt_pairs(y: Option<Yaml>) -> Seq<(Seq<char>, Seq<char>)> {
    match y {
        Some(Yaml::Mapping(m)) => text_pairs(m@),
        _ => Seq::empty(),
    }
}

/// Looks up an option.
pub fn get_option<'a>(o: &'a Options, k: &str) -> (r: Option<&'a Yaml>)
    ensures
        (match r {
            Some(y) => option(o@, k@) == Some(*y),
            None => option(o@, k@) is None,
        }),
{
    let mut i: usize = 0;
    while i < o.len()
        invariant
            i <= o@.len(),
            option(o@, k@) == option_from(o@, k@, i as int),
        decreases o@.len() - i,
    {
        if text::same(o[i].0.as_str(), k) {
            return Some(&o[i].1);
        }
        i += 1;
    }
    None
}

/// Looks up a key of a mapping.
pub fn get_entry<'a>(y: &'a Yaml, k: &str) -> (r: Option<&'a Yaml>)
    ensures
        (match r {
            Some(v) => entry(*y, k@) == Some(*v),
            None => entry(*y, k@) is None,
        }),
{
    if let Yaml::Mapping(m) = y {
        let mut i: usize = 0;
        while i < m.len()
            invariant
                i <= m@.len(),
                entry(*y, k@) == entry_from(m@, k@, i as int),
            decreases m@.len() - i,
        {
            if let Yaml::Text(s) = &m[i].0 {
                if text::same(s.as_str(), k) {
                    return Some(&m[i].1);
                }
            }
            i += 1;
        }
    }
    None
}

/// Looks up a key of a mapping that may be absent.
pub fn get_opt_entry<'a>(y: Option<&'a Yaml>, k: &str) -> (r: Option<&'a Yaml>)
    ensures
        (match r {
            Some(v) => y matches Some(m) && entry(*m, k@) == Some(*v),
            None => y matches Some(m) ==> entry(*m, k@) is None,
        }),
{
    match y {
        Some(m) => get_entry(m, k),
        None => None,
    }
}

/// The text of a value that may be absent.
pub fn get_str<'a>(y: Option<&'a Yaml>) -> (r: Option<&'a str>)
    ensures
        (match r {
            Some(s) => y matches Some(v) && str_of(*v) == Some(s@),
            None => y matches Some(v) ==> str_of(*v) is None,
        }),
{
    match y {
        Some(Yaml::Text(s)) => Some(s.as_str()),
        _ => None,
    }
}

/// Looks up an option that is text.
pub fn get_str_option<'a>(o: &'a Options, k: &str) -> (r: Option<&'a str>)
    ensures
        (match r {
            Some(s) => str_option(o@, k@) == Some(s@),
            None => str_option(o@, k@) is None,
        }),
{
    get_str(get_option(o, k))
}

/// Looks up a flag; an absent one is false.
pub fn get_flag(o: &Options, k: &str) -> (r: bool)
    ensures
        r == flag(o@, k@),
{
    match get_option(o, k) {
        Some(Yaml::Bool(b)) => *b,
        _ => false,
    }
}

/// Looks up an option that is a number.
pub fn get_u64_option(o: &Options, k: &str) -> (r: Option<u64>)
    ensures
        r == u64_option(o@, k@),
{
    match get_option(o, k) {
        Some(Yaml::Number(YamlNumber::Unsigned(n))) => Some(*n),
        _ => None,
    }
}

/// The texts of a list.
pub fn get_texts(s: &Vec<Yaml>) -> (out: Vec<String>)
    ensures
        text::views(out@) == texts(s@),
{
    let mut out: Vec<String> = Vec::new();
    let mut i: usize = 0;
    assert(text::views(out@) =~= Seq::<Seq<char>>::empty());
    while i < s.len()
        invariant
            i <= s@.len(),
            text::views(out@) == texts(s@.take(i as int)),
        decreases s@.len() - i,
    {
        assert(s@.take(i + 1).drop_last() == s@.take(i as int));
        if let Yaml::Text(t) = &s[i] {
            let t = t.clone();
            let ghost shown = text::views(out@).push(t@);
            out.push(t);
            assert(text::views(out@) =~= shown);
        }
        i += 1;
    }
    assert(s@.take(i as int) == s@);
    out
}

/// The pairs of texts of a value that may be absent.
pub fn get_pairs(y: Option<&Yaml>) -> (out: Vec<(String, String)>)
    ensures
        pair_views(out@) == opt_pairs(match y {
            Some(v) => Some(*v),
            None => None,
        }),
{
    let mut out: Vec<(String, String)> = Vec::new();
    assert(pair_views(out@) =~= Seq::<(Seq<char>, Seq<char>)>::empty());
    if let Some(Yaml::Mapping(m)) = y {
        let mut i: usize = 0;
        while i < m.len()
            invariant
                i <= m@.len(),
                pair_views(out@) == text_pairs(m@.take(i as int)),
            decreases m@.len() - i,
        {
            assert(m@.take(i + 1).drop_last() == m@.take(i as int));
            if let Yaml::Text(k) = &m[i].0 {
                if let Yaml::Text(v) = &m[i].1 {
                    let k = k.clone();
                    let v = v.clone();
                    let ghost shown = pair_views(out@).push((k@, v@));
                    out.push((k, v));
                    assert(pair_views(out@) =~= shown);
                }
            }
            i += 1;
        }
        assert(m@.take(i as int) == m@);
    }
    out
}

/// The notation of a number.
pub open spec fn number_text(n: YamlNumber) -> Seq<char> {
    match n {
        YamlNumber::Unsigned(u) => number::decimal(u as nat),
        YamlNumber::Negative(i) => if i < 0 {
            "-"@ + number::decimal((-i) as nat)
        } else {
            number::decimal(i as nat)
        },
        YamlNumber::Other(t) => t@,
    }
}

/// Writes a number.
pub fn format_number(n: &YamlNumber) -> (s: String)
    ensures
        s@ == number_text(*n),
{
    match n {
        YamlNumber::Unsigned(u) => number::to_decimal(*u),
        YamlNumber::Negative(i) => {
            if *i < 0 {
                let m: u64 = if *i == i64::MIN {
                    0x8000_0000_0000_0000
                } else {
                    (-*i) as u64
                };
                "-".to_owned().concat(number::to_decimal(m).as_str())
            } else {
                number::to_decimal(*i as u64)
            }
        },
        YamlNumber::Other(t) => t.clone(),
    }
}

} // verus!
