//! What holds of the databases that a configuration needs.

use crate::config::geo;
use crate::config::geo::{
    AtHand, DatabaseNeed, GeoDataConfig, GeoNeeds, GeoUsual, Loaded, Payload, Present,
};
use crate::config::places;
use crate::config::places::Surroundings;
use crate::config::raw::{
    RawConfig, RawGeoDataConfig, RawGeoDataUrls, RawNspValue, RawRuleProvider,
};
use crate::number;
use crate::paths;
use crate::text;
use vstd::prelude::*;
use vstd::string::*;

verus! {

proof fn lemma_push_has(d: Seq<Seq<char>>, t: Seq<char>, x: Seq<char>)
    ensures
        d.push(t).contains(x) <==> d.contains(x) || x == t,
{
    let p = d.push(t);
    if d.contains(x) {
        let i = choose|i: int| 0 <= i < d.len() && d[i] == x;
        assert(p[i] == x);
    }
    if x == t {
        assert(p[d.len() as int] == x);
    }
    if p.contains(x) {
        let i = choose|i: int| 0 <= i < p.len() && p[i] == x;
        if i < d.len() {
            assert(d[i] == x);
        }
    }
}

/// Of a list each text is kept once, where it stands first.
pub proof fn law_each_text_is_kept_once(s: Seq<Seq<char>>, t: Seq<char>, x: Seq<char>)
    ensures
        geo::distinct(s).no_duplicates(),
        geo::distinct(s).contains(x) <==> s.contains(x),
        s.contains(t) ==> geo::distinct(s.push(t)) == geo::distinct(s),
        !s.contains(t) ==> geo::distinct(s.push(t)) == geo::distinct(s).push(t),
    decreases s.len(),
{
    lemma_distinct(s, x);
    lemma_distinct(s, t);
    assert(s.push(t).drop_last() =~= s);
}

proof fn lemma_distinct(s: Seq<Seq<char>>, x: Seq<char>)
    ensures
        geo::distinct(s).no_duplicates(),
        geo::distinct(s).contains(x) <==> s.contains(x),
    decreases s.len(),
{
    if s.len() > 0 {
        let r = s.drop_last();
        lemma_distinct(r, x);
        lemma_push_has(geo::distinct(r), s.last(), x);
        lemma_push_has(r, s.last(), x);
        assert(r.push(s.last()) =~= s);
    }
}

/// The numbers of autonomous systems are those that are named, each once; what is no such
/// number is passed over.
pub proof fn law_each_number_is_kept_once(s: Seq<Seq<char>>, t: Seq<char>, n: u32)
    ensures
        geo::distinct_numbers(s).no_duplicates(),
        geo::distinct_numbers(s).contains(n) <==> exists|i: int|
            0 <= i < s.len() && number::unsigned(#[trigger] s[i], u32::MAX as nat) == Some(n as nat),
        number::unsigned(t, u32::MAX as nat) is None ==> geo::distinct_numbers(s.push(t))
            == geo::distinct_numbers(s),
        number::unsigned(t, u32::MAX as nat) == Some(n as nat) && !geo::distinct_numbers(
            s,
        ).contains(n) ==> geo::distinct_numbers(s.push(t)) == geo::distinct_numbers(s).push(n),
{
    lemma_numbers(s, n);
    assert(s.push(t).drop_last() =~= s);
}

proof fn lemma_numbers(s: Seq<Seq<char>>, n: u32)
    ensures
        geo::distinct_numbers(s).no_duplicates(),
        geo::distinct_numbers(s).contains(n) <==> exists|i: int|
            0 <= i < s.len() && number::unsigned(#[trigger] s[i], u32::MAX as nat) == Some(n as nat),
    decreases s.len(),
{
    if s.len() > 0 {
        let r = s.drop_last();
        lemma_numbers(r, n);
        let d = geo::distinct_numbers(r);
        let all = geo::distinct_numbers(s);
        if exists|i: int|
            0 <= i < s.len() && number::unsigned(#[trigger] s[i], u32::MAX as nat) == Some(
                n as nat,
            ) {
            let i = choose|i: int|
                0 <= i < s.len() && number::unsigned(#[trigger] s[i], u32::MAX as nat) == Some(
                    n as nat,
                );
            if i < r.len() {
                assert(r[i] == s[i]);
                assert(d.contains(n));
            }
            if d.contains(n) {
                let k = choose|k: int| 0 <= k < d.len() && d[k] == n;
                assert(all[k] == n);
            } else {
                assert(all[all.len() - 1] == n);
            }
        }
        if all.contains(n) {
            let k = choose|k: int| 0 <= k < all.len() && all[k] == n;
            if k < d.len() {
                assert(d[k] == n);
                let i = choose|i: int|
                    0 <= i < r.len() && number::unsigned(#[trigger] r[i], u32::MAX as nat) == Some(
                        n as nat,
                    );
                assert(s[i] == r[i]);
            } else {
                assert(number::unsigned(s[s.len() - 1], u32::MAX as nat) == Some(n as nat));
            }
        }
    } else {
        assert(geo::distinct_numbers(s).len() == 0);
    }
}

proof fn lemma_first_reference(p: Seq<char>, lines: Seq<Seq<char>>, from: int)
    requires
        0 <= from,
    ensures
        (match geo::first_reference(p, lines, from) {
            Some(k) => from <= k < lines.len() && geo::refers(p, lines[k]) && forall|j: int|
                from <= j < k ==> !geo::refers(p, #[trigger] lines[j]),
            None => forall|j: int| from <= j < lines.len() ==> !geo::refers(p, #[trigger] lines[j]),
        }),
    decreases lines.len() - from,
{
    if from < lines.len() && !geo::refers(p, lines[from]) {
        lemma_first_reference(p, lines, from + 1);
    }
}

/// A database is needed exactly where some line refers to it, and the first such line is
/// told. Each database has its own pattern, its own place and its own names; sites are
/// also needed where a policy for names goes by them.
pub proof fn law_databases_are_needed_where_lines_refer(
    n: GeoNeeds,
    raw: RawConfig,
    geoip_path: Seq<char>,
    asn_path: Seq<char>,
    lines: Seq<Seq<char>>,
)
    requires
        geo::needs_match(n, raw, geoip_path, asn_path, lines),
    ensures
        n.geoip is Some <==> exists|i: int|
            0 <= i < lines.len() && geo::refers(geo::GEOIP_PATTERN@, #[trigger] lines[i]),
        n.asn is Some <==> exists|i: int|
            0 <= i < lines.len() && geo::refers(geo::ASN_PATTERN@, #[trigger] lines[i]),
        n.geosite is Some <==> (exists|i: int|
            0 <= i < lines.len() && geo::refers(geo::GEOSITE_PATTERN@, #[trigger] lines[i])) || (
        exists|i: int|
            0 <= i < geo::policies(raw).len() && geo::geosite_key(
                (#[trigger] geo::policies(raw)[i]).0@,
            )),
        n.geoip matches Some(x) ==> x.0.path@ == geoip_path && lines.contains(x.0.trigger@)
            && geo::refers(geo::GEOIP_PATTERN@, x.0.trigger@) && text::views(x.1@)
            == geo::countries_of(lines),
        n.asn matches Some(x) ==> x.0.path@ == asn_path && lines.contains(x.0.trigger@)
            && geo::refers(geo::ASN_PATTERN@, x.0.trigger@) && x.1@ == geo::distinct_numbers(
            geo::found(geo::ASN_PATTERN@, lines),
        ),
{
    lemma_first_reference(geo::GEOIP_PATTERN@, lines, 0);
    lemma_first_reference(geo::ASN_PATTERN@, lines, 0);
    lemma_first_reference(geo::GEOSITE_PATTERN@, lines, 0);
}

/// The sites that are needed are those of the lines and those of the policies.
pub proof fn law_sites_of_lines_and_policies(raw: RawConfig, lines: Seq<Seq<char>>, x: Seq<char>)
    ensures
        geo::sites_of(raw, lines).no_duplicates(),
        geo::sites_of(raw, lines).contains(x) <==> geo::lowers(
            geo::found(geo::GEOSITE_PATTERN@, lines),
        ).contains(x) || geo::policy_categories(geo::policies(raw)).contains(x),
{
    let a = geo::lowers(geo::found(geo::GEOSITE_PATTERN@, lines));
    let b = geo::policy_categories(geo::policies(raw));
    let both = geo::distinct(a) + geo::distinct(b);
    lemma_distinct(a, x);
    lemma_distinct(b, x);
    lemma_distinct(both, x);
    let p = geo::distinct(a);
    let q = geo::distinct(b);
    if p.contains(x) {
        let i = choose|i: int| 0 <= i < p.len() && p[i] == x;
        assert(both[i] == x);
    }
    if q.contains(x) {
        let i = choose|i: int| 0 <= i < q.len() && q[i] == x;
        assert(both[p.len() + i] == x);
    }
    if both.contains(x) {
        let i = choose|i: int| 0 <= i < both.len() && both[i] == x;
        if i < p.len() {
            assert(p[i] == x);
        } else {
            assert(q[i - p.len()] == x);
        }
    }
}

/// A line is looked at unless it is blank or a comment, and what a pattern finds in the
/// lines is what it finds in each, in order.
pub proof fn law_lines_are_looked_at_one_by_one(p: Seq<char>, lines: Seq<Seq<char>>, l: Seq<char>)
    ensures
        ({
            let t = text::trimmed(l);
            &&& t.len() == 0 || t[0] == '#' ==> geo::found(p, lines.push(l)) == geo::found(p, lines)
                && !geo::refers(p, l)
            &&& t.len() > 0 && t[0] != '#' ==> geo::found(p, lines.push(l)) == geo::found(p, lines)
                + geo::hits(p, t) && (geo::refers(p, l) <==> geo::hits(p, t).len() > 0)
        }),
        geo::found(p, Seq::empty()).len() == 0,
{
    assert(lines.push(l).drop_last() =~= lines);
}

/// Everything that holds rules is looked at: the rules, their blocks, the sources that are
/// written out and the bytes that came, but not compiled sets.
pub proof fn law_everything_that_holds_rules_is_looked_at(
    raw: RawConfig,
    payloads: Seq<Payload>,
    x: Payload,
    blocks: Seq<(String, Vec<String>)>,
    b: (String, Vec<String>),
    sources: Seq<(String, RawRuleProvider)>,
    s: (String, RawRuleProvider),
)
    ensures
        raw.rules matches Some(v) ==> geo::scan_lines(raw, payloads).take(v@.len() as int)
            == text::views(v@),
        raw.sub_rules is None && raw.rule_providers is None && raw.rules is None
            ==> geo::scan_lines(raw, payloads) == geo::payload_lines(payloads),
        x.compiled ==> geo::payload_lines(payloads.push(x)) == geo::payload_lines(payloads),
        !x.compiled ==> geo::payload_lines(payloads.push(x)) == geo::payload_lines(payloads)
            + geo::live_lines(text::line_list(text::utf8_lossy(x.bytes@))),
        geo::block_lines(blocks.push(b)) == geo::block_lines(blocks) + text::views(b.1@),
        s.1.payload matches Some(v) ==> geo::inline_lines(sources.push(s)) == geo::inline_lines(
            sources,
        ) + text::views(v@),
        s.1.payload is None ==> geo::inline_lines(sources.push(s)) == geo::inline_lines(sources),
        ({
            let rules = match raw.rules {
                Some(v) => v@.len(),
                None => 0,
            };
            let in_blocks = match raw.sub_rules {
                Some(l) => geo::block_lines(l@).len(),
                None => 0,
            };
            let written = match raw.rule_providers {
                Some(l) => geo::inline_lines(l@).len(),
                None => 0,
            };
            geo::scan_lines(raw, payloads).len() == rules + in_blocks + written
                + geo::payload_lines(payloads).len()
        }),
{
    assert(payloads.push(x).drop_last() =~= payloads);
    assert(blocks.push(b).drop_last() =~= blocks);
    assert(sources.push(s).drop_last() =~= sources);
    if s.1.payload is None {
        assert(geo::inline_lines(sources.push(s)) =~= geo::inline_lines(sources));
    }
    if let Some(v) = raw.rules {
        assert(geo::scan_lines(raw, payloads).take(v@.len() as int) =~= text::views(v@));
    }
    if raw.sub_rules is None && raw.rule_providers is None && raw.rules is None {
        assert(geo::scan_lines(raw, payloads) =~= geo::payload_lines(payloads));
    }
}

/// A policy for sites lists categories behind its prefix; each is taken in small letters
/// and without what stands behind an `@`. Another key has none.
pub proof fn law_policies_name_categories(parts: Seq<Seq<char>>, x: Seq<char>, key: Seq<char>)
    ensures
        geo::categories(Seq::empty()).len() == 0,
        geo::category(x).len() > 0 ==> geo::categories(parts.push(x)) == geo::categories(
            parts,
        ).push(geo::category(x)),
        geo::category(x).len() == 0 ==> geo::categories(parts.push(x)) == geo::categories(parts),
        geo::category(x) == text::ascii_lower(text::parts(text::trimmed(x), '@')[0]),
        geo::geosite_key(key) <==> "geosite:"@.is_prefix_of(
            text::ascii_lower(text::trimmed(key)),
        ),
        !geo::geosite_key(key) ==> geo::key_categories(key).len() == 0,
        geo::geosite_key(key) ==> geo::key_categories(key) == geo::categories(
            text::parts(text::trimmed(key).skip(8), ','),
        ),
{
    reveal_strlit("geosite:");
    assert("geosite:"@.len() == 8);
    assert(parts.push(x).drop_last() =~= parts);
}

/// Databases that are needed are at hand once they are loaded, and a database that is not
/// needed is not asked for, however its file is.
pub proof fn law_databases_at_hand(
    n: &GeoNeeds,
    geoip: &Loaded,
    asn: &Loaded,
    geosite: bool,
    r: Result<AtHand, String>,
)
    requires
        call_ensures(geo::databases_at_hand, (n, geoip, asn, geosite), r),
    ensures
        r is Ok <==> (n.geoip is None || *geoip is Ready) && (n.asn is None || *asn is Ready),
        r matches Ok(h) ==> (h.geoip <==> n.geoip is Some) && (h.asn <==> n.asn is Some) && (
        h.geosite <==> n.geosite is Some && geosite),
{
}

/// The section on databases is followed: each place and each address is that of its own
/// option, and the usual one where the option is not there.
pub proof fn law_the_section_on_databases_is_followed(
    raw: &RawConfig,
    usual: &GeoUsual,
    r: Result<GeoDataConfig, String>,
)
    requires
        call_ensures(geo::parse_geodata, (raw, usual), r),
    ensures
        r is Err <==> (raw.geodata matches Some(g) && g.auto_update_interval == Some(0u32)),
        r matches Ok(c) ==> (raw.geodata matches Some(g) ==> {
            &&& text::opt_view(c.mmdb_path) == text::opt_view(g.mmdb_path)
            &&& text::opt_view(c.asn_path) == text::opt_view(g.asn_path)
            &&& text::opt_view(c.geosite_path) == text::opt_view(g.geosite_path)
            &&& c.auto_update == g.auto_update
            &&& g.auto_update_interval matches Some(h) ==> c.auto_update_interval == h
            &&& g.auto_update_interval is None ==> c.auto_update_interval == usual.interval
            &&& g.url matches Some(u) ==> {
                &&& u.mmdb matches Some(t) ==> c.mmdb_url@ == t@
                &&& u.mmdb is None ==> c.mmdb_url@ == usual.mmdb_url@
                &&& u.asn matches Some(t) ==> c.asn_url@ == t@
                &&& u.asn is None ==> c.asn_url@ == usual.asn_url@
                &&& u.geosite matches Some(t) ==> c.geosite_url@ == t@
                &&& u.geosite is None ==> c.geosite_url@ == usual.geosite_url@
            }
        }),
        r matches Ok(c) ==> (raw.geodata is None ==> {
            &&& c.mmdb_path is None && c.asn_path is None && c.geosite_path is None
            &&& c.mmdb_url@ == usual.mmdb_url@
            &&& c.asn_url@ == usual.asn_url@
            &&& c.geosite_url@ == usual.geosite_url@
            &&& !c.auto_update
            &&& c.auto_update_interval == usual.interval
        }),
{
}

/// What is fetched before the start is each database that is needed and not there, from
/// its own address to its own place, and no other.
pub proof fn law_missing_databases_are_fetched(
    raw: RawConfig,
    g: GeoDataConfig,
    lines: Seq<Seq<char>>,
    there: Present,
    e: Surroundings,
)
    ensures
        ({
            let d = geo::downloads(raw, g, lines, there, e);
            let country = exists|i: int|
                0 <= i < lines.len() && geo::refers(geo::GEOIP_PATTERN@, #[trigger] lines[i]);
            let system = exists|i: int|
                0 <= i < lines.len() && geo::refers(geo::ASN_PATTERN@, #[trigger] lines[i]);
            let sites = geo::sites_needed(raw, lines);
            let c = if country && !there.geoip {
                seq![
                    (
                        g.mmdb_url@,
                        match g.mmdb_path {
                            Some(p) => p@,
                            None => paths::joined(places::program_dir(e), "Country.mmdb"@),
                        },
                    ),
                ]
            } else {
                Seq::empty()
            };
            let s = if system && !there.asn {
                seq![
                    (
                        g.asn_url@,
                        match g.asn_path {
                            Some(p) => p@,
                            None => paths::joined(places::program_dir(e), "GeoLite2-ASN.mmdb"@),
                        },
                    ),
                ]
            } else {
                Seq::empty()
            };
            let t = if sites && !there.geosite {
                seq![
                    (
                        g.geosite_url@,
                        match g.geosite_path {
                            Some(p) => p@,
                            None => paths::joined(places::program_dir(e), "geosite.dat"@),
                        },
                    ),
                ]
            } else {
                Seq::empty()
            };
            d == c + s + t
        }),
{
    lemma_first_reference(geo::GEOIP_PATTERN@, lines, 0);
    lemma_first_reference(geo::ASN_PATTERN@, lines, 0);
}

/// The categories of policies are those of their keys, one key after another.
pub proof fn law_policies_are_looked_at_in_order(p: geo::Policy, x: (String, RawNspValue))
    ensures
        geo::policy_categories(Seq::empty()).len() == 0,
        geo::policy_categories(p.push(x)) == geo::policy_categories(p) + geo::key_categories(x.0@),
{
    assert(p.push(x).drop_last() =~= p);
}

} // verus!
