//! What the rules of a configuration need of the databases of countries,
//! autonomous systems and sites.

use crate::config::places;
use crate::config::places::Surroundings;
use crate::config::raw::{
    RawConfig, RawGeoDataConfig, RawGeoDataUrls, RawNspValue, RawRuleProvider,
};
use crate::config::yaml;
use crate::number;
use crate::paths;
use crate::pattern;
use crate::text;
use vstd::prelude::*;
use vstd::string::*;

verus! {

/// A rule on the country of an address, anywhere in a line.
pub const GEOIP_PATTERN: &'static str = "(?i)\\bGEOIP\\s*,\\s*([A-Za-z0-9]+)";

/// A rule on the site of a name, anywhere in a line.
pub const GEOSITE_PATTERN: &'static str =
    "(?i)\\bGEOSITE\\s*,\\s*([A-Za-z0-9_!\\-]+)(?:@[A-Za-z0-9_!\\-]+)*";

/// A rule on the autonomous system of an address, anywhere in a line.
pub const ASN_PATTERN: &'static str = "(?i)\\b(?:SRC-)?IP-ASN\\s*,\\s*(\\d+)";

/// A line that is neither blank nor a comment.
pub open spec fn live(line: Seq<char>) -> bool {
    let t = text::trimmed(line);
    t.len() > 0 && t[0] != '#'
}

/// What a pattern captures in a text.
pub open spec fn hits(p: Seq<char>, line: Seq<char>) -> Seq<Seq<char>> {
    match pattern::captured(p, line) {
        Some(c) => c,
        None => Seq::empty(),
    }
}

/// Whether a line refers to a database.
pub open spec fn refers(p: Seq<char>, line: Seq<char>) -> bool {
    live(line) && hits(p, text::trimmed(line)).len() > 0
}

/// What a pattern captures in the lines that are neither blank nor comments, blanks
/// around them left out.
pub open spec fn found(p: Seq<char>, lines: Seq<Seq<char>>) -> Seq<Seq<char>>
    decreases lines.len(),
{
    if lines.len() == 0 {
        Seq::empty()
    } else {
        let f = found(p, lines.drop_last());
        if live(lines.last()) {
            f + hits(p, text::trimmed(lines.last()))
        } else {
            f
        }
    }
}

/// A list without what stands in it before.
pub open spec fn distinct(s: Seq<Seq<char>>) -> Seq<Seq<char>>
    decreases s.len(),
{
    if s.len() == 0 {
        s
    } else {
        let d = distinct(s.drop_last());
        if d.contains(s.last()) {
            d
        } else {
            d.push(s.last())
        }
    }
}

/// Texts in uppercase.
pub open spec fn uppers(s: Seq<Seq<char>>) -> Seq<Seq<char>> {
    s.map_values(|t: Seq<char>| text::ascii_upper(t))
}

/// Texts in lowercase.
pub open spec fn lowers(s: Seq<Seq<char>>) -> Seq<Seq<char>> {
    s.map_values(|t: Seq<char>| text::ascii_lower(t))
}

/// The numbers among texts, each once.
pub open spec fn distinct_numbers(s: Seq<Seq<char>>) -> Seq<u32>
    decreases s.len(),
{
    if s.len() == 0 {
        Seq::empty()
    } else {
        let d = distinct_numbers(s.drop_last());
        match number::unsigned(s.last(), u32::MAX as nat) {
            Some(n) => if d.contains(n as u32) {
                d
            } else {
                d.push(n as u32)
            },
            None => d,
        }
    }
}

/// Whether a line is neither blank nor a comment.
pub fn is_live(line: &str) -> (r: bool)
    ensures
        r == live(line@),
{
    let t = text::trim(line);
    let c = text::chars_of(t.as_str());
    c.len() > 0 && c[0] != '#'
}

fn line_references(p: &str, line: &str) -> (r: bool)
    ensures
        r == refers(p@, line@),
{
    if !is_live(line) {
        return false;
    }
    let t = text::trim(line);
    match pattern::is_match(p, t.as_str()) {
        Some(b) => b,
        None => false,
    }
}

/// Whether a line refers to the database of countries, at its start or inside a
/// rule of rules. A comment refers to nothing.
pub fn line_references_geoip(line: &str) -> (r: bool)
    ensures
        r == refers(GEOIP_PATTERN@, line@),
{
    line_references(GEOIP_PATTERN, line)
}

/// Whether a line refers to the database of sites.
pub fn line_references_geosite(line: &str) -> (r: bool)
    ensures
        r == refers(GEOSITE_PATTERN@, line@),
{
    line_references(GEOSITE_PATTERN, line)
}

/// Whether a line refers to the database of autonomous systems.
pub fn line_references_asn(line: &str) -> (r: bool)
    ensures
        r == refers(ASN_PATTERN@, line@),
{
    line_references(ASN_PATTERN, line)
}

fn find_all(p: &str, lines: &Vec<String>) -> (out: Vec<String>)
    ensures
        text::views(out@) == found(p@, text::views(lines@)),
{
    let ghost all = text::views(lines@);
    let mut out = text::no_strings();
    let mut i: usize = 0;
    assert(all.take(0) =~= Seq::empty());
    while i < lines.len()
        invariant
            i <= lines@.len(),
            all == text::views(lines@),
            text::views(out@) == found(p@, all.take(i as int)),
        decreases lines@.len() - i,
    {
        assert(all.take(i + 1).drop_last() =~= all.take(i as int));
        assert(all.take(i + 1).last() == lines@[i as int]@);
        if is_live(lines[i].as_str()) {
            let t = text::trim(lines[i].as_str());
            if let Some(more) = pattern::captures(p, t.as_str()) {
                text::append_strings(&mut out, &more);
            } else {
                assert(found(p@, all.take(i as int)) + Seq::<Seq<char>>::empty() =~= found(
                    p@,
                    all.take(i as int),
                ));
            }
        }
        i += 1;
    }
    assert(all.take(i as int) =~= all);
    out
}

/// A list of texts, each once.
pub fn dedup(v: &Vec<String>) -> (out: Vec<String>)
    ensures
        text::views(out@) == distinct(text::views(v@)),
{
    let ghost all = text::views(v@);
    let mut out = text::no_strings();
    let mut i: usize = 0;
    assert(all.take(0) =~= Seq::empty());
    while i < v.len()
        invariant
            i <= v@.len(),
            all == text::views(v@),
            text::views(out@) == distinct(all.take(i as int)),
        decreases v@.len() - i,
    {
        assert(all.take(i + 1).drop_last() =~= all.take(i as int));
        assert(all.take(i + 1).last() == v@[i as int]@);
        if !text::has_string(&out, v[i].as_str()) {
            text::push_string(&mut out, v[i].clone());
        }
        i += 1;
    }
    assert(all.take(i as int) =~= all);
    out
}

fn all_upper(v: &Vec<String>) -> (out: Vec<String>)
    ensures
        text::views(out@) == uppers(text::views(v@)),
{
    let mut out = text::no_strings();
    let mut i: usize = 0;
    while i < v.len()
        invariant
            i <= v@.len(),
            text::views(out@) == uppers(text::views(v@)).take(i as int),
        decreases v@.len() - i,
    {
        text::push_string(&mut out, text::to_ascii_upper(v[i].as_str()));
        assert(uppers(text::views(v@)).take(i + 1) =~= uppers(text::views(v@)).take(i as int).push(
            text::ascii_upper(v@[i as int]@),
        ));
        i += 1;
    }
    assert(uppers(text::views(v@)).take(i as int) =~= uppers(text::views(v@)));
    out
}

fn all_lower(v: &Vec<String>) -> (out: Vec<String>)
    ensures
        text::views(out@) == lowers(text::views(v@)),
{
    let mut out = text::no_strings();
    let mut i: usize = 0;
    while i < v.len()
        invariant
            i <= v@.len(),
            text::views(out@) == lowers(text::views(v@)).take(i as int),
        decreases v@.len() - i,
    {
        text::push_string(&mut out, text::to_ascii_lower(v[i].as_str()));
        assert(lowers(text::views(v@)).take(i + 1) =~= lowers(text::views(v@)).take(i as int).push(
            text::ascii_lower(v@[i as int]@),
        ));
        i += 1;
    }
    assert(lowers(text::views(v@)).take(i as int) =~= lowers(text::views(v@)));
    out
}

/// The countries that lines refer to, in uppercase, each once.
pub open spec fn countries_of(lines: Seq<Seq<char>>) -> Seq<Seq<char>> {
    distinct(uppers(found(GEOIP_PATTERN@, lines)))
}

/// The countries that the lines refer to, in uppercase, each once.
pub fn collect_geoip_countries(lines: &Vec<String>) -> (out: Vec<String>)
    ensures
        text::views(out@) == countries_of(text::views(lines@)),
{
    countries_named(&find_all(GEOIP_PATTERN, lines))
}

/// The countries among texts, in uppercase, each once.
pub fn countries_named(found: &Vec<String>) -> (out: Vec<String>)
    ensures
        text::views(out@) == distinct(uppers(text::views(found@))),
{
    dedup(&all_upper(found))
}

/// The categories of sites that the lines refer to, in lowercase, each once.
pub fn collect_geosite_categories(lines: &Vec<String>) -> (out: Vec<String>)
    ensures
        text::views(out@) == distinct(lowers(found(GEOSITE_PATTERN@, text::views(lines@)))),
{
    categories_named(&find_all(GEOSITE_PATTERN, lines))
}

/// The categories among texts, in lowercase, each once.
pub fn categories_named(found: &Vec<String>) -> (out: Vec<String>)
    ensures
        text::views(out@) == distinct(lowers(text::views(found@))),
{
    dedup(&all_lower(found))
}

/// The autonomous systems that the lines refer to, each once.
pub fn collect_asn_numbers(lines: &Vec<String>) -> (out: Vec<u32>)
    ensures
        out@ == distinct_numbers(found(ASN_PATTERN@, text::views(lines@))),
{
    numbers_named(&find_all(ASN_PATTERN, lines))
}

/// The numbers among texts, each once.
pub fn numbers_named(v: &Vec<String>) -> (out: Vec<u32>)
    ensures
        out@ == distinct_numbers(text::views(v@)),
{
    let ghost all = text::views(v@);
    let mut out: Vec<u32> = Vec::new();
    let mut i: usize = 0;
    assert(all.take(0) =~= Seq::empty());
    while i < v.len()
        invariant
            i <= v@.len(),
            all == text::views(v@),
            out@ == distinct_numbers(all.take(i as int)),
        decreases v@.len() - i,
    {
        assert(all.take(i + 1).drop_last() =~= all.take(i as int));
        assert(all.take(i + 1).last() == v@[i as int]@);
        if let Some(n) = number::parse_u32(v[i].as_str()) {
            if !has_number(&out, n) {
                out.push(n);
            }
        }
        i += 1;
    }
    assert(all.take(i as int) =~= all);
    out
}

fn has_number(v: &Vec<u32>, n: u32) -> (r: bool)
    ensures
        r == v@.contains(n),
{
    let mut i: usize = 0;
    while i < v.len()
        invariant
            i <= v@.len(),
            forall|k: int| 0 <= k < i ==> v@[k] != n,
        decreases v@.len() - i,
    {
        if v[i] == n {
            return true;
        }
        i += 1;
    }
    false
}

proof fn lemma_distinct(s: Seq<Seq<char>>)
    ensures
        forall|x: Seq<char>| #[trigger] distinct(s).contains(x) <==> s.contains(x),
        distinct(s).no_duplicates(),
    decreases s.len(),
{
    if s.len() > 0 {
        let f = s.drop_last();
        lemma_distinct(f);
        let d = distinct(f);
        let all = distinct(s);
        assert forall|x: Seq<char>| #[trigger] all.contains(x) <==> s.contains(x) by {
            if s.contains(x) {
                let i = choose|i: int| 0 <= i < s.len() && s[i] == x;
                if i < f.len() {
                    assert(f[i] == x);
                    assert(d.contains(x));
                    let k = choose|k: int| 0 <= k < d.len() && d[k] == x;
                    assert(all[k] == x);
                } else if !d.contains(x) {
                    assert(all[d.len() as int] == x);
                }
            }
            if all.contains(x) {
                let k = choose|k: int| 0 <= k < all.len() && all[k] == x;
                if k < d.len() {
                    assert(d[k] == x);
                    assert(d.contains(x));
                    assert(f.contains(x));
                    let i = choose|i: int| 0 <= i < f.len() && f[i] == x;
                    assert(s[i] == x);
                } else {
                    assert(s[s.len() - 1] == x);
                }
            }
        }
    }
}

proof fn lemma_found(p: Seq<char>, lines: Seq<Seq<char>>)
    ensures
        found(p, lines).len() > 0 <==> exists|i: int|
            0 <= i < lines.len() && refers(p, #[trigger] lines[i]),
    decreases lines.len(),
{
    if lines.len() > 0 {
        let before = lines.drop_last();
        lemma_found(p, before);
        if found(p, before).len() > 0 {
            let i = choose|i: int| 0 <= i < before.len() && refers(p, #[trigger] before[i]);
            assert(refers(p, lines[i]));
        }
        if refers(p, lines.last()) {
            assert(refers(p, lines[lines.len() - 1]));
        }
        if exists|i: int| 0 <= i < lines.len() && refers(p, #[trigger] lines[i]) {
            let i = choose|i: int| 0 <= i < lines.len() && refers(p, #[trigger] lines[i]);
            if i < before.len() {
                assert(refers(p, before[i]));
            }
        }
    }
}

proof fn lemma_found_in_both(p: Seq<char>, a: Seq<Seq<char>>, b: Seq<Seq<char>>)
    ensures
        found(p, a + b) == found(p, a) + found(p, b),
    decreases b.len(),
{
    if b.len() == 0 {
        assert(a + b =~= a);
        assert(found(p, a) + found(p, b) =~= found(p, a));
    } else {
        assert((a + b).drop_last() =~= a + b.drop_last());
        assert((a + b).last() == b.last());
        lemma_found_in_both(p, a, b.drop_last());
        assert(found(p, a + b) =~= found(p, a) + found(p, b));
    }
}

/// The list of countries holds, once each, exactly the countries that are named by
/// lines that are neither blank nor comments: repeated rules come to one entry.
pub proof fn law_each_country_once(lines: Seq<Seq<char>>)
    ensures
        countries_of(lines).no_duplicates(),
        forall|x: Seq<char>| #[trigger]
            countries_of(lines).contains(x) <==> uppers(
                found(GEOIP_PATTERN@, lines),
            ).contains(x),
{
    lemma_distinct(uppers(found(GEOIP_PATTERN@, lines)));
}

/// What calls for the database of countries also says which countries are wanted: the
/// list of countries is not empty exactly where a line refers to the database.
pub proof fn law_triggers_agree_with_countries(lines: Seq<Seq<char>>)
    ensures
        countries_of(lines).len() > 0 <==> exists|i: int|
            0 <= i < lines.len() && refers(GEOIP_PATTERN@, #[trigger] lines[i]),
{
    let f = found(GEOIP_PATTERN@, lines);
    lemma_found(GEOIP_PATTERN@, lines);
    lemma_distinct(uppers(f));
    if f.len() > 0 {
        assert(uppers(f)[0] == text::ascii_upper(f[0]));
        assert(uppers(f).contains(text::ascii_upper(f[0])));
        assert(countries_of(lines).contains(text::ascii_upper(f[0])));
    } else if countries_of(lines).len() > 0 {
        assert(countries_of(lines).contains(countries_of(lines)[0]));
        assert(uppers(f).contains(countries_of(lines)[0]));
    }
}

/// A single line names a country exactly where it refers to the database.
pub proof fn law_a_line_names_a_country_where_it_refers(line: Seq<char>)
    ensures
        countries_of(seq![line]).len() > 0 <==> refers(GEOIP_PATTERN@, line),
{
    law_triggers_agree_with_countries(seq![line]);
    assert(seq![line][0] == line);
}

/// Two lists of lines name together the countries that each of them names, so that
/// neither the order of lines nor a line that is repeated matters.
pub proof fn law_countries_of_both_lists(a: Seq<Seq<char>>, b: Seq<Seq<char>>)
    ensures
        countries_of(a + b).to_set() == countries_of(a).to_set().union(countries_of(b).to_set()),
{
    let p = GEOIP_PATTERN@;
    lemma_found_in_both(p, a, b);
    let (fa, fb) = (uppers(found(p, a)), uppers(found(p, b)));
    let both = uppers(found(p, a + b));
    assert(both =~= fa + fb);
    lemma_distinct(both);
    lemma_distinct(fa);
    lemma_distinct(fb);
    assert forall|x: Seq<char>| #[trigger] countries_of(a + b).to_set().contains(x) == countries_of(
        a,
    ).to_set().union(countries_of(b).to_set()).contains(x) by {
        assert(countries_of(a + b).contains(x) <==> both.contains(x));
        assert(countries_of(a).contains(x) <==> fa.contains(x));
        assert(countries_of(b).contains(x) <==> fb.contains(x));
        if fa.contains(x) {
            let i = choose|i: int| 0 <= i < fa.len() && fa[i] == x;
            assert(both[i] == x);
        }
        if fb.contains(x) {
            let i = choose|i: int| 0 <= i < fb.len() && fb[i] == x;
            assert(both[fa.len() + i] == x);
        }
        if both.contains(x) {
            let i = choose|i: int| 0 <= i < both.len() && both[i] == x;
            if i < fa.len() {
                assert(fa[i] == x);
            } else {
                assert(fb[i - fa.len()] == x);
            }
        }
    }
    assert(countries_of(a + b).to_set() =~= countries_of(a).to_set().union(
        countries_of(b).to_set(),
    ));
}

/// Blank lines and comments name no country.
pub proof fn law_comments_name_no_country(lines: Seq<Seq<char>>, line: Seq<char>)
    requires
        !live(line),
    ensures
        countries_of(lines.push(line)) == countries_of(lines),
{
    assert(lines.push(line).drop_last() =~= lines);
}

/// The names of countries have no small letter of ASCII.
pub proof fn law_countries_are_in_capitals(lines: Seq<Seq<char>>, i: int, k: int)
    requires
        0 <= i < countries_of(lines).len(),
        0 <= k < countries_of(lines)[i].len(),
    ensures
        !('a' <= countries_of(lines)[i][k] <= 'z'),
{
    let f = found(GEOIP_PATTERN@, lines);
    let c = countries_of(lines)[i];
    lemma_distinct(uppers(f));
    assert(countries_of(lines).contains(c));
    assert(uppers(f).contains(c));
    let q = choose|q: int| 0 <= q < uppers(f).len() && uppers(f)[q] == c;
    assert(c == text::ascii_upper(f[q]));
    assert(c[k] == text::upper_char(f[q][k]));
}

/// A policy on the names of a nameserver, by its key.
pub type Policy = Seq<(String, RawNspValue)>;

/// The policies of a configuration.
pub open spec fn policies(raw: RawConfig) -> Policy {
    match raw.dns {
        Some(d) => match d.nameserver_policy {
            Some(v) => v@,
            None => Seq::empty(),
        },
        None => Seq::empty(),
    }
}

/// Whether a key of a policy names categories of sites.
pub open spec fn geosite_key(key: Seq<char>) -> bool {
    "geosite:"@.is_prefix_of(text::ascii_lower(text::trimmed(key)))
}

/// The category that a part of a key names.
pub open spec fn category(part: Seq<char>) -> Seq<char> {
    text::ascii_lower(text::parts(text::trimmed(part), '@')[0])
}

/// The categories that parts of a key name.
pub open spec fn categories(parts: Seq<Seq<char>>) -> Seq<Seq<char>>
    decreases parts.len(),
{
    if parts.len() == 0 {
        Seq::empty()
    } else {
        let c = categories(parts.drop_last());
        let last = category(parts.last());
        if last.len() > 0 {
            c.push(last)
        } else {
            c
        }
    }
}

/// The categories that a key names.
pub open spec fn key_categories(key: Seq<char>) -> Seq<Seq<char>> {
    if geosite_key(key) {
        categories(text::parts(text::trimmed(key).skip("geosite:"@.len() as int), ','))
    } else {
        Seq::empty()
    }
}

/// The categories that the keys of policies name.
pub open spec fn policy_categories(p: Policy) -> Seq<Seq<char>>
    decreases p.len(),
{
    if p.len() == 0 {
        Seq::empty()
    } else {
        policy_categories(p.drop_last()) + key_categories(p.last().0@)
    }
}

fn is_geosite_key(key: &str) -> (r: bool)
    ensures
        r == geosite_key(key@),
{
    let t = text::trim(key);
    let l = text::to_ascii_lower(t.as_str());
    text::starts_with(l.as_str(), "geosite:")
}

/// Whether a policy names categories of sites.
pub fn dns_policy_uses_geosite(raw: &RawConfig) -> (r: bool)
    ensures
        r == exists|i: int|
            0 <= i < policies(*raw).len() && geosite_key((#[trigger] policies(*raw)[i]).0@),
{
    if let Some(dns) = &raw.dns {
        if let Some(p) = &dns.nameserver_policy {
            let mut i: usize = 0;
            while i < p.len()
                invariant
                    i <= p@.len(),
                    p@ == policies(*raw),
                    forall|k: int| 0 <= k < i ==> !geosite_key((#[trigger] policies(*raw)[k]).0@),
                decreases p@.len() - i,
            {
                if is_geosite_key(p[i].0.as_str()) {
                    assert(geosite_key(policies(*raw)[i as int].0@));
                    return true;
                }
                i += 1;
            }
        }
    }
    false
}

fn categories_of(parts: &Vec<String>) -> (out: Vec<String>)
    ensures
        text::views(out@) == categories(text::views(parts@)),
{
    let ghost all = text::views(parts@);
    let mut out = text::no_strings();
    let mut i: usize = 0;
    assert(all.take(0) =~= Seq::empty());
    while i < parts.len()
        invariant
            i <= parts@.len(),
            all == text::views(parts@),
            text::views(out@) == categories(all.take(i as int)),
        decreases parts@.len() - i,
    {
        assert(all.take(i + 1).drop_last() =~= all.take(i as int));
        assert(all.take(i + 1).last() == parts@[i as int]@);
        let t = text::trim(parts[i].as_str());
        let p = text::split(t.as_str(), '@');
        assert(text::views(p@)[0] == p@[0]@);
        let c = text::to_ascii_lower(p[0].as_str());
        if c.as_str().unicode_len() > 0 {
            text::push_string(&mut out, c);
        }
        i += 1;
    }
    assert(all.take(i as int) =~= all);
    out
}

/// The categories of sites that the policies name, in lowercase, each once.
pub fn collect_dns_policy_geosite_categories(raw: &RawConfig) -> (out: Vec<String>)
    ensures
        text::views(out@) == distinct(policy_categories(policies(*raw))),
{
    let mut all = text::no_strings();
    if let Some(dns) = &raw.dns {
        if let Some(p) = &dns.nameserver_policy {
            let ghost list = p@;
            let mut i: usize = 0;
            assert(list.take(0) =~= Seq::empty());
            while i < p.len()
                invariant
                    i <= p@.len(),
                    list == p@,
                    text::views(all@) == policy_categories(list.take(i as int)),
                decreases p@.len() - i,
            {
                let key = p[i].0.as_str();
                assert(list.take(i + 1).drop_last() =~= list.take(i as int));
                assert(list.take(i + 1).last() == p@[i as int]);
                if is_geosite_key(key) {
                    let t = text::trim(key);
                    assert(text::ascii_lower(t@).len() == t@.len());
                    let n: usize = "geosite:".unicode_len();
                    let rest = text::skip(t.as_str(), n);
                    let parts = text::split(rest.as_str(), ',');
                    let c = categories_of(&parts);
                    text::append_strings(&mut all, &c);
                } else {
                    assert(policy_categories(list.take(i as int)) + Seq::<Seq<char>>::empty()
                        =~= policy_categories(list.take(i as int)));
                }
                i += 1;
            }
            assert(list.take(i as int) =~= list);
        }
    }
    dedup(&all)
}

/// What was fetched for a source of rules: its bytes, and whether they are a
/// compiled set, which holds no rules on databases.
#[derive(Clone, Debug)]
pub struct Payload {
    pub name: String,
    pub bytes: Vec<u8>,
    pub compiled: bool,
}

/// The lines among lines that are neither blank nor comments, without blanks
/// around them.
pub open spec fn live_lines(l: Seq<Seq<char>>) -> Seq<Seq<char>>
    decreases l.len(),
{
    if l.len() == 0 {
        Seq::empty()
    } else {
        let r = live_lines(l.drop_last());
        if live(l.last()) {
            r.push(text::trimmed(l.last()))
        } else {
            r
        }
    }
}

/// The lines of what was fetched.
pub open spec fn payload_lines(p: Seq<Payload>) -> Seq<Seq<char>>
    decreases p.len(),
{
    if p.len() == 0 {
        Seq::empty()
    } else {
        let r = payload_lines(p.drop_last());
        if p.last().compiled {
            r
        } else {
            r + live_lines(text::line_list(text::utf8_lossy(p.last().bytes@)))
        }
    }
}

/// The lines of named blocks.
pub open spec fn block_lines(b: Seq<(String, Vec<String>)>) -> Seq<Seq<char>>
    decreases b.len(),
{
    if b.len() == 0 {
        Seq::empty()
    } else {
        block_lines(b.drop_last()) + text::views(b.last().1@)
    }
}

/// The lines of inline sources of rules.
pub open spec fn inline_lines(p: Seq<(String, RawRuleProvider)>) -> Seq<Seq<char>>
    decreases p.len(),
{
    if p.len() == 0 {
        Seq::empty()
    } else {
        inline_lines(p.drop_last()) + (match p.last().1.payload {
            Some(v) => text::views(v@),
            None => Seq::empty(),
        })
    }
}

/// Every line that can hold a rule on a database.
pub open spec fn scan_lines(raw: RawConfig, payloads: Seq<Payload>) -> Seq<Seq<char>> {
    let rules = match raw.rules {
        Some(v) => text::views(v@),
        None => Seq::empty(),
    };
    let blocks = match raw.sub_rules {
        Some(b) => block_lines(b@),
        None => Seq::empty(),
    };
    let inline = match raw.rule_providers {
        Some(p) => inline_lines(p@),
        None => Seq::empty(),
    };
    rules + blocks + inline + payload_lines(payloads)
}

/// The lines that are neither blank nor comments, without blanks around them.
pub fn live_of(lines: &Vec<String>) -> (out: Vec<String>)
    ensures
        text::views(out@) == live_lines(text::views(lines@)),
{
    let ghost all = text::views(lines@);
    let mut out = text::no_strings();
    let mut i: usize = 0;
    assert(all.take(0) =~= Seq::empty());
    while i < lines.len()
        invariant
            i <= lines@.len(),
            all == text::views(lines@),
            text::views(out@) == live_lines(all.take(i as int)),
        decreases lines@.len() - i,
    {
        assert(all.take(i + 1).drop_last() =~= all.take(i as int));
        assert(all.take(i + 1).last() == lines@[i as int]@);
        if is_live(lines[i].as_str()) {
            text::push_string(&mut out, text::trim(lines[i].as_str()));
        }
        i += 1;
    }
    assert(all.take(i as int) =~= all);
    out
}

fn add_blocks(out: &mut Vec<String>, b: &Vec<(String, Vec<String>)>)
    ensures
        text::views(final(out)@) == text::views(old(out)@) + block_lines(b@),
{
    let ghost start = text::views(out@);
    let mut i: usize = 0;
    assert(b@.take(0) =~= Seq::empty());
    while i < b.len()
        invariant
            i <= b@.len(),
            text::views(out@) == start + block_lines(b@.take(i as int)),
        decreases b@.len() - i,
    {
        assert(b@.take(i + 1).drop_last() =~= b@.take(i as int));
        text::append_strings(out, &b[i].1);
        i += 1;
    }
    assert(b@.take(i as int) =~= b@);
}

fn add_inline(out: &mut Vec<String>, p: &Vec<(String, RawRuleProvider)>)
    ensures
        text::views(final(out)@) == text::views(old(out)@) + inline_lines(p@),
{
    let ghost start = text::views(out@);
    let mut i: usize = 0;
    assert(p@.take(0) =~= Seq::empty());
    while i < p.len()
        invariant
            i <= p@.len(),
            text::views(out@) == start + inline_lines(p@.take(i as int)),
        decreases p@.len() - i,
    {
        assert(p@.take(i + 1).drop_last() =~= p@.take(i as int));
        if let Some(v) = &p[i].1.payload {
            text::append_strings(out, v);
        }
        i += 1;
    }
    assert(p@.take(i as int) =~= p@);
}

fn add_payloads(out: &mut Vec<String>, p: &Vec<Payload>)
    ensures
        text::views(final(out)@) == text::views(old(out)@) + payload_lines(p@),
{
    let ghost start = text::views(out@);
    let mut i: usize = 0;
    assert(p@.take(0) =~= Seq::empty());
    while i < p.len()
        invariant
            i <= p@.len(),
            text::views(out@) == start + payload_lines(p@.take(i as int)),
        decreases p@.len() - i,
    {
        assert(p@.take(i + 1).drop_last() =~= p@.take(i as int));
        if !p[i].compiled {
            let t = text::lossy(p[i].bytes.as_slice());
            let l = text::lines(t.as_str());
            let l = live_of(&l);
            text::append_strings(out, &l);
        }
        i += 1;
    }
    assert(p@.take(i as int) =~= p@);
}

/// Every line that can hold a rule on a database: the rules, the blocks of rules,
/// the rules of inline sources, and what was fetched for the other sources.
pub fn collect_geo_scan_lines(raw: &RawConfig, payloads: &Vec<Payload>) -> (out: Vec<String>)
    ensures
        text::views(out@) == scan_lines(*raw, payloads@),
{
    let mut out = text::no_strings();
    if let Some(v) = &raw.rules {
        text::append_strings(&mut out, v);
    }
    if let Some(b) = &raw.sub_rules {
        add_blocks(&mut out, b);
    }
    if let Some(p) = &raw.rule_providers {
        add_inline(&mut out, p);
    }
    add_payloads(&mut out, payloads);
    out
}

/// The first line, from a position on, that refers to a database.
pub open spec fn first_reference(p: Seq<char>, lines: Seq<Seq<char>>, from: int) -> Option<int>
    decreases lines.len() - from,
{
    if from < 0 || from >= lines.len() {
        None
    } else if refers(p, lines[from]) {
        Some(from)
    } else {
        first_reference(p, lines, from + 1)
    }
}

fn find_reference(p: &str, lines: &Vec<String>) -> (r: Option<usize>)
    ensures
        (match r {
            Some(i) => i < lines@.len() && first_reference(p@, text::views(lines@), 0) == Some(
                i as int,
            ),
            None => first_reference(p@, text::views(lines@), 0) is None,
        }),
{
    let ghost all = text::views(lines@);
    let mut i: usize = 0;
    while i < lines.len()
        invariant
            i <= lines@.len(),
            all == text::views(lines@),
            first_reference(p@, all, 0) == first_reference(p@, all, i as int),
        decreases lines@.len() - i,
    {
        assert(all[i as int] == lines@[i as int]@);
        if line_references(p, lines[i].as_str()) {
            return Some(i);
        }
        i += 1;
    }
    None
}

/// A database of addresses that has to be read: where it is, and the line that
/// asks for it.
#[derive(Clone, Debug)]
pub struct DatabaseNeed {
    pub path: String,
    pub trigger: String,
}

/// What the rules of a configuration need of the databases.
#[derive(Clone, Debug)]
pub struct GeoNeeds {
    /// The countries that are referred to.
    pub geoip: Option<(DatabaseNeed, Vec<String>)>,
    /// The autonomous systems that are referred to.
    pub asn: Option<(DatabaseNeed, Vec<u32>)>,
    /// The categories of sites that are referred to.
    pub geosite: Option<Vec<String>>,
}

/// Whether a database is needed as the lines say: by the first line that refers to
/// it.
pub open spec fn needed(
    need: Option<DatabaseNeed>,
    p: Seq<char>,
    path: Seq<char>,
    lines: Seq<Seq<char>>,
) -> bool {
    match (need, first_reference(p, lines, 0)) {
        (Some(n), Some(i)) => n.path@ == path && n.trigger@ == lines[i],
        (None, None) => true,
        _ => false,
    }
}

/// Whether the categories of sites are referred to at all.
pub open spec fn sites_needed(raw: RawConfig, lines: Seq<Seq<char>>) -> bool {
    first_reference(GEOSITE_PATTERN@, lines, 0) is Some || exists|i: int|
        0 <= i < policies(raw).len() && geosite_key((#[trigger] policies(raw)[i]).0@)
}

/// The categories of sites that are referred to.
pub open spec fn sites_of(raw: RawConfig, lines: Seq<Seq<char>>) -> Seq<Seq<char>> {
    distinct(
        distinct(lowers(found(GEOSITE_PATTERN@, lines))) + distinct(
            policy_categories(policies(raw)),
        ),
    )
}

/// The need of the first part of a pair.
pub open spec fn need_of<T>(n: Option<(DatabaseNeed, T)>) -> Option<DatabaseNeed> {
    match n {
        Some(x) => Some(x.0),
        None => None,
    }
}

/// Whether needs are those of a configuration.
pub open spec fn needs_match(
    n: GeoNeeds,
    raw: RawConfig,
    geoip_path: Seq<char>,
    asn_path: Seq<char>,
    lines: Seq<Seq<char>>,
) -> bool {
    &&& needed(need_of(n.geoip), GEOIP_PATTERN@, geoip_path, lines)
    &&& n.geoip matches Some(x) ==> text::views(x.1@) == countries_of(lines)
    &&& needed(need_of(n.asn), ASN_PATTERN@, asn_path, lines)
    &&& n.asn matches Some(x) ==> x.1@ == distinct_numbers(found(ASN_PATTERN@, lines))
    &&& n.geosite is Some == sites_needed(raw, lines)
    &&& n.geosite matches Some(v) ==> text::views(v@) == sites_of(raw, lines)
}

/// What the rules of a configuration need of the databases, wherever the rules
/// stand: at the top, in blocks, or in sources.
pub fn build_parser_context_at(
    raw: &RawConfig,
    geoip_path: &str,
    asn_path: &str,
    payloads: &Vec<Payload>,
) -> (n: GeoNeeds)
    ensures
        needs_match(n, *raw, geoip_path@, asn_path@, scan_lines(*raw, payloads@)),
{
    let lines = collect_geo_scan_lines(raw, payloads);
    let geoip = match find_reference(GEOIP_PATTERN, &lines) {
        Some(i) => Some(
            (
                DatabaseNeed { path: geoip_path.to_owned(), trigger: lines[i].clone() },
                collect_geoip_countries(&lines),
            ),
        ),
        None => None,
    };
    let asn = match find_reference(ASN_PATTERN, &lines) {
        Some(i) => Some(
            (
                DatabaseNeed { path: asn_path.to_owned(), trigger: lines[i].clone() },
                collect_asn_numbers(&lines),
            ),
        ),
        None => None,
    };
    let geosite = if find_reference(GEOSITE_PATTERN, &lines).is_some() || dns_policy_uses_geosite(
        raw,
    ) {
        let mut all = collect_geosite_categories(&lines);
        let more = collect_dns_policy_geosite_categories(raw);
        text::append_strings(&mut all, &more);
        Some(dedup(&all))
    } else {
        None
    };
    GeoNeeds { geoip, asn, geosite }
}

/// The words for a database that cannot be read.
pub open spec fn unreadable(
    kind: Seq<char>,
    path: Seq<char>,
    trigger: Seq<char>,
    reason: Seq<char>,
) -> Seq<char> {
    "Failed to load "@ + kind + " database at "@ + path + "\n  required by rule: "@
        + text::trimmed(trigger) + "\n  underlying error: "@ + reason
}

/// How it is told that a database cannot be read.
pub fn load_error(kind: &str, path: &str, trigger: &str, reason: &str) -> (s: String)
    ensures
        s@ == unreadable(kind@, path@, trigger@, reason@),
{
    let t = text::trim(trigger);
    "Failed to load ".to_owned().concat(kind).concat(" database at ").concat(path).concat(
        "\n  required by rule: ",
    ).concat(t.as_str()).concat("\n  underlying error: ").concat(reason)
}

/// What came of loading a database.
#[derive(Clone, Debug)]
pub enum Loaded {
    Ready,
    /// The file cannot be read as a database, for the reason given.
    Unreadable(String),
    /// What is asked for cannot be taken out of it, for the reason given.
    Unindexed(String),
}

/// Which databases the rules have at hand.
#[derive(Clone, Copy, Debug, PartialEq, Eq, Structural)]
pub struct AtHand {
    pub geoip: bool,
    pub asn: bool,
    pub geosite: bool,
}

/// Why a database that may be needed is missing.
pub open spec fn loading_error(
    need: Option<DatabaseNeed>,
    kind: Seq<char>,
    index: Seq<char>,
    loaded: Loaded,
) -> Option<Seq<char>> {
    match (need, loaded) {
        (None, _) => None,
        (Some(_), Loaded::Ready) => None,
        (Some(n), Loaded::Unreadable(e)) => Some(unreadable(kind, n.path@, n.trigger@, e@)),
        (Some(_), Loaded::Unindexed(e)) => Some("failed to build "@ + index + " index: "@ + e@),
    }
}

/// Why databases are missing: that of countries goes before that of autonomous
/// systems.
pub open spec fn databases_error(n: GeoNeeds, geoip: Loaded, asn: Loaded) -> Option<Seq<char>> {
    match loading_error(need_of(n.geoip), "GeoIP"@, "GeoIP country"@, geoip) {
        Some(e) => Some(e),
        None => loading_error(need_of(n.asn), "GeoLite2-ASN"@, "ASN"@, asn),
    }
}

fn check_loaded(
    need: Option<&DatabaseNeed>,
    kind: &str,
    index: &str,
    loaded: &Loaded,
) -> (r: Result<(), String>)
    ensures
        (match (r, loading_error(
            match need {
                Some(n) => Some(*n),
                None => None,
            },
            kind@,
            index@,
            *loaded,
        )) {
            (Ok(_), None) => true,
            (Err(e), Some(m)) => e@ == m,
            _ => false,
        }),
{
    match (need, loaded) {
        (None, _) => Ok(()),
        (Some(_), Loaded::Ready) => Ok(()),
        (Some(n), Loaded::Unreadable(e)) => Err(
            load_error(kind, n.path.as_str(), n.trigger.as_str(), e.as_str()),
        ),
        (Some(_), Loaded::Unindexed(e)) => Err(
            "failed to build ".to_owned().concat(index).concat(" index: ").concat(e.as_str()),
        ),
    }
}

/// Tells which databases the rules have at hand, given what came of loading each. A
/// database that is needed must be there, but for that of sites, which may be missing.
pub fn databases_at_hand(n: &GeoNeeds, geoip: &Loaded, asn: &Loaded, geosite: bool) -> (r: Result<
    AtHand,
    String,
>)
    ensures
        (match (r, databases_error(*n, *geoip, *asn)) {
            (Ok(h), None) => {
                &&& h.geoip == n.geoip is Some
                &&& h.asn == n.asn is Some
                &&& h.geosite == (n.geosite is Some && geosite)
            },
            (Err(e), Some(m)) => e@ == m,
            _ => false,
        }),
{
    let needs_geoip = match &n.geoip {
        Some(x) => Some(&x.0),
        None => None,
    };
    if let Err(e) = check_loaded(needs_geoip, "GeoIP", "GeoIP country", geoip) {
        return Err(e);
    }
    let needs_asn = match &n.asn {
        Some(x) => Some(&x.0),
        None => None,
    };
    if let Err(e) = check_loaded(needs_asn, "GeoLite2-ASN", "ASN", asn) {
        return Err(e);
    }
    Ok(
        AtHand {
            geoip: n.geoip.is_some(),
            asn: n.asn.is_some(),
            geosite: n.geosite.is_some() && geosite,
        },
    )
}

/// A database that no line refers to is not asked for, and its absence is no error.
/// One that a line refers to and that cannot be read is told of with its kind, its
/// path and the first line that refers to it, wherever that line stands.
pub proof fn law_missing_databases_are_told_of(
    n: GeoNeeds,
    raw: RawConfig,
    geoip_path: Seq<char>,
    asn_path: Seq<char>,
    payloads: Seq<Payload>,
    geoip: Loaded,
    asn: Loaded,
)
    requires
        needs_match(n, raw, geoip_path, asn_path, scan_lines(raw, payloads)),
    ensures
        ({
            let lines = scan_lines(raw, payloads);
            let country = first_reference(GEOIP_PATTERN@, lines, 0);
            let system = first_reference(ASN_PATTERN@, lines, 0);
            &&& (country is None || geoip is Ready) && (system is None || asn is Ready)
                ==> databases_error(n, geoip, asn) is None
            &&& country is Some && geoip is Unreadable ==> databases_error(n, geoip, asn) == Some(
                unreadable("GeoIP"@, geoip_path, lines[country->0], geoip->Unreadable_0@),
            )
            &&& (country is None || geoip is Ready) && system is Some && asn is Unreadable
                ==> databases_error(n, geoip, asn) == Some(
                unreadable("GeoLite2-ASN"@, asn_path, lines[system->0], asn->Unreadable_0@),
            )
        }),
{
}

/// Where the databases are and where they come from.
#[derive(Clone, Debug)]
pub struct GeoDataConfig {
    pub mmdb_path: Option<String>,
    pub asn_path: Option<String>,
    pub geosite_path: Option<String>,
    pub mmdb_url: String,
    pub asn_url: String,
    pub geosite_url: String,
    /// Whether the databases are fetched again from time to time.
    pub auto_update: bool,
    /// How many hours lie between two looks for newer databases.
    pub auto_update_interval: u32,
}

/// What stands for what the section on the databases leaves out.
#[derive(Clone, Debug)]
pub struct GeoUsual {
    pub mmdb_url: String,
    pub asn_url: String,
    pub geosite_url: String,
    /// In hours.
    pub interval: u32,
}

/// The section on the databases as it is written, or what stands for no section.
pub open spec fn geodata_in(raw: RawConfig) -> RawGeoDataConfig {
    match raw.geodata {
        Some(g) => g,
        None => RawGeoDataConfig {
            mmdb_path: None,
            asn_path: None,
            geosite_path: None,
            auto_update: false,
            auto_update_interval: None,
            url: None,
            geodata_mode: None,
            geodata_loader: None,
            geoip_matcher: None,
        },
    }
}

/// An address that the section sets, or the usual one.
pub open spec fn url_or(
    urls: Option<RawGeoDataUrls>,
    pick: spec_fn(RawGeoDataUrls) -> Option<String>,
    usual: Seq<char>,
) -> Seq<char> {
    match urls {
        Some(u) => match pick(u) {
            Some(t) => t@,
            None => usual,
        },
        None => usual,
    }
}

/// Whether settings are what the section on the databases says.
pub open spec fn geodata_matches(c: GeoDataConfig, g: RawGeoDataConfig, usual: GeoUsual) -> bool {
    &&& text::opt_view(c.mmdb_path) == text::opt_view(g.mmdb_path)
    &&& text::opt_view(c.asn_path) == text::opt_view(g.asn_path)
    &&& text::opt_view(c.geosite_path) == text::opt_view(g.geosite_path)
    &&& c.mmdb_url@ == url_or(g.url, |u: RawGeoDataUrls| u.mmdb, usual.mmdb_url@)
    &&& c.asn_url@ == url_or(g.url, |u: RawGeoDataUrls| u.asn, usual.asn_url@)
    &&& c.geosite_url@ == url_or(g.url, |u: RawGeoDataUrls| u.geosite, usual.geosite_url@)
    &&& c.auto_update == g.auto_update
    &&& c.auto_update_interval == (match g.auto_update_interval {
        Some(n) => n,
        None => usual.interval,
    })
}

fn copy_opt(o: &Option<String>) -> (r: Option<String>)
    ensures
        text::opt_view(r) == text::opt_view(*o),
{
    match o {
        Some(s) => Some(s.clone()),
        None => None,
    }
}

/// Reads the section on the databases. Looks for newer databases lie an hour apart at
/// least, so that an interval of zero is an error.
pub fn parse_geodata(raw: &RawConfig, usual: &GeoUsual) -> (r: Result<GeoDataConfig, String>)
    ensures
        r is Err <==> geodata_in(*raw).auto_update_interval == Some(0u32),
        (match r {
            Ok(c) => geodata_matches(c, geodata_in(*raw), *usual),
            Err(e) => e@ == "geodata.auto-update-interval: must be at least 1 hour"@,
        }),
{
    match &raw.geodata {
        None => Ok(
            GeoDataConfig {
                mmdb_path: None,
                asn_path: None,
                geosite_path: None,
                mmdb_url: usual.mmdb_url.clone(),
                asn_url: usual.asn_url.clone(),
                geosite_url: usual.geosite_url.clone(),
                auto_update: false,
                auto_update_interval: usual.interval,
            },
        ),
        Some(g) => {
            let interval: u32 = match g.auto_update_interval {
                Some(n) => n,
                None => usual.interval,
            };
            if g.auto_update_interval.is_some() && interval == 0 {
                return Err("geodata.auto-update-interval: must be at least 1 hour".to_owned());
            }
            let (mmdb, asn, geosite) = match &g.url {
                Some(u) => (copy_opt(&u.mmdb), copy_opt(&u.asn), copy_opt(&u.geosite)),
                None => (None, None, None),
            };
            Ok(
                GeoDataConfig {
                    mmdb_path: copy_opt(&g.mmdb_path),
                    asn_path: copy_opt(&g.asn_path),
                    geosite_path: copy_opt(&g.geosite_path),
                    mmdb_url: place_of(&mmdb, usual.mmdb_url.clone()),
                    asn_url: place_of(&asn, usual.asn_url.clone()),
                    geosite_url: place_of(&geosite, usual.geosite_url.clone()),
                    auto_update: g.auto_update,
                    auto_update_interval: interval,
                },
            )
        },
    }
}

/// Which databases are there already.
#[derive(Clone, Copy, Debug, PartialEq, Eq, Structural)]
pub struct Present {
    pub geoip: bool,
    pub asn: bool,
    pub geosite: bool,
}

/// The path that is set, or the usual one.
pub open spec fn path_or(set: Option<String>, e: Surroundings, name: Seq<char>) -> Seq<char> {
    match set {
        Some(p) => p@,
        None => paths::joined(places::program_dir(e), name),
    }
}

/// One download, if it is called for.
pub open spec fn one_download(
    wanted: bool,
    url: Seq<char>,
    to: Seq<char>,
) -> Seq<(Seq<char>, Seq<char>)> {
    if wanted {
        seq![(url, to)]
    } else {
        Seq::empty()
    }
}

/// The databases that are needed and not there: where each comes from and where it
/// goes.
pub open spec fn downloads(
    raw: RawConfig,
    geo: GeoDataConfig,
    lines: Seq<Seq<char>>,
    there: Present,
    e: Surroundings,
) -> Seq<(Seq<char>, Seq<char>)> {
    one_download(
        first_reference(GEOIP_PATTERN@, lines, 0) is Some && !there.geoip,
        geo.mmdb_url@,
        path_or(geo.mmdb_path, e, "Country.mmdb"@),
    ) + one_download(
        first_reference(ASN_PATTERN@, lines, 0) is Some && !there.asn,
        geo.asn_url@,
        path_or(geo.asn_path, e, "GeoLite2-ASN.mmdb"@),
    ) + one_download(
        sites_needed(raw, lines) && !there.geosite,
        geo.geosite_url@,
        path_or(geo.geosite_path, e, "geosite.dat"@),
    )
}

fn place_of(set: &Option<String>, usual: String) -> (r: String)
    ensures
        r@ == (match *set {
            Some(p) => p@,
            None => usual@,
        }),
{
    match set {
        Some(p) => p.clone(),
        None => usual,
    }
}

/// The databases that are needed and not there.
pub fn ensure_geodata(
    raw: &RawConfig,
    geo: &GeoDataConfig,
    lines: &Vec<String>,
    there: Present,
    e: &Surroundings,
) -> (out: Vec<(String, String)>)
    ensures
        yaml::pair_views(out@) == downloads(
            *raw,
            *geo,
            text::views(lines@),
            there,
            *e,
        ),
{
    let needs_geoip = find_reference(GEOIP_PATTERN, lines).is_some();
    let needs_asn = find_reference(ASN_PATTERN, lines).is_some();
    let needs_geosite = find_reference(GEOSITE_PATTERN, lines).is_some()
        || dns_policy_uses_geosite(raw);
    let mut out: Vec<(String, String)> = Vec::new();
    if needs_geoip && !there.geoip {
        out.push((geo.mmdb_url.clone(), place_of(&geo.mmdb_path, places::default_geoip_path(e))));
    }
    if needs_asn && !there.asn {
        out.push((geo.asn_url.clone(), place_of(&geo.asn_path, places::default_asn_path(e))));
    }
    if needs_geosite && !there.geosite {
        out.push(
            (
                geo.geosite_url.clone(),
                place_of(&geo.geosite_path, places::default_geosite_path(e)),
            ),
        );
    }
    assert(yaml::pair_views(out@) =~= downloads(
        *raw,
        *geo,
        text::views(lines@),
        there,
        *e,
    ));
    out
}

} // verus!
