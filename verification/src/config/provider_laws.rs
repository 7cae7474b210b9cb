//! What holds of the sources of rules.

use crate::config::geo;
use crate::config::raw::RawRuleProvider;
use crate::config::rule_provider;
use crate::config::rule_provider::{
    CacheStep, EntriesView, Fetched, ProviderType, ProviderView, Received, RuleSetBehavior,
    RuleSetFormat, SourceView,
};
use crate::paths;
use crate::text;
use crate::text_laws;
use vstd::prelude::*;
use vstd::string::*;
use vstd::utf8::*;

verus! {

proof fn lemma_names()
    ensures
        "file"@ != "http"@ && "file"@ != "inline"@ && "http"@ != "inline"@,
        "yaml"@ != "text"@ && "yaml"@ != "mrs"@ && "text"@ != "mrs"@,
        "domain"@ != "ipcidr"@ && "domain"@ != "classical"@ && "ipcidr"@ != "classical"@,
{
    reveal_strlit("file");
    reveal_strlit("http");
    reveal_strlit("inline");
    reveal_strlit("yaml");
    reveal_strlit("text");
    reveal_strlit("mrs");
    reveal_strlit("domain");
    reveal_strlit("ipcidr");
    reveal_strlit("classical");
    assert("file"@[0] == 'f' && "http"@[0] == 'h' && "inline"@.len() == 6 && "file"@.len() == 4
        && "http"@.len() == 4);
    assert("yaml"@[0] == 'y' && "text"@[0] == 't' && "mrs"@.len() == 3 && "yaml"@.len() == 4
        && "text"@.len() == 4);
    assert("domain"@[0] == 'd' && "ipcidr"@[0] == 'i' && "classical"@.len() == 9 && "domain"@.len()
        == 6 && "ipcidr"@.len() == 6);
}

/// Each name of a format or of a subject means one of its own, and no other name means
/// any.
pub proof fn law_formats_and_subjects_have_their_names(s: Seq<char>)
    ensures
        rule_provider::format_named(s) == Some(RuleSetFormat::Yaml) <==> s == "yaml"@,
        rule_provider::format_named(s) == Some(RuleSetFormat::Text) <==> s == "text"@,
        rule_provider::format_named(s) == Some(RuleSetFormat::Mrs) <==> s == "mrs"@,
        rule_provider::format_named(s) is None <==> s != "yaml"@ && s != "text"@ && s != "mrs"@,
        rule_provider::behavior_of(s) == Some(RuleSetBehavior::Domain) <==> s == "domain"@,
        rule_provider::behavior_of(s) == Some(RuleSetBehavior::IpCidr) <==> s == "ipcidr"@,
        rule_provider::behavior_of(s) == Some(RuleSetBehavior::Classical) <==> s == "classical"@,
        rule_provider::behavior_of(s) is None <==> s != "domain"@ && s != "ipcidr"@ && s
            != "classical"@,
{
    lemma_names();
}

/// A source keeps what its section says of it: its name, its type, its subject, where it
/// is, and how often it is fetched again, which only one on a server is. It is as new as
/// the time of loading.
pub proof fn law_a_source_is_as_its_section_says(
    name: Seq<char>,
    cfg: RawRuleProvider,
    cache_dir: Option<Seq<char>>,
    fetched: Fetched,
    now: u64,
)
    requires
        rule_provider::loaded(name, cfg, cache_dir, fetched, now) is Ok,
    ensures
        ({
            let p = rule_provider::loaded(name, cfg, cache_dir, fetched, now)->Ok_0;
            let t = cfg.provider_type@;
            &&& p.name == name
            &&& p.updated_at == now
            &&& p.provider_type is Inline <==> t == "inline"@
            &&& p.provider_type is File <==> t == "file"@
            &&& p.provider_type is Http <==> t == "http"@
            &&& p.behavior is Domain <==> cfg.behavior@ == "domain"@
            &&& p.behavior is IpCidr <==> cfg.behavior@ == "ipcidr"@
            &&& p.behavior is Classical <==> cfg.behavior@ == "classical"@
            &&& p.provider_type is Http ==> (cfg.url matches Some(u) && p.vehicle == u@)
            &&& p.provider_type is File ==> rule_provider::path_of(cfg, cache_dir, name) == Some(
                p.vehicle,
            )
            &&& p.provider_type is Inline ==> p.vehicle.len() == 0
            &&& p.provider_type is Http && (cfg.interval matches Some(n)) ==> p.interval
                == cfg.interval->0
            &&& !(p.provider_type is Http) || cfg.interval is None ==> p.interval == 0
            &&& p.provider_type is Inline ==> (cfg.payload matches Some(l) && p.rules
                == EntriesView::Lines(text::views(l@)))
        }),
{
    lemma_names();
}

/// The place of a file is taken from the directory of kept files where there is one and
/// the section names a path; without a path it is the usual place under that directory.
pub proof fn law_where_a_source_is_kept(
    cfg: RawRuleProvider,
    cache_dir: Option<Seq<char>>,
    name: Seq<char>,
)
    ensures
        rule_provider::path_of(cfg, cache_dir, name) is None <==> cfg.path is None
            && cache_dir is None,
        cache_dir is None ==> (cfg.path matches Some(p) ==> rule_provider::path_of(
            cfg,
            cache_dir,
            name,
        ) == Some(p@)),
        cache_dir matches Some(d) ==> (cfg.path matches Some(p) ==> rule_provider::path_of(
            cfg,
            cache_dir,
            name,
        ) == Some(paths::joined(d, p@))),
        cache_dir matches Some(d) ==> (cfg.path is None ==> rule_provider::path_of(
            cfg,
            cache_dir,
            name,
        ) == Some(paths::joined(paths::joined(d, "rule-providers"@), name + ".yaml"@))),
{
}

/// What is to be read for a source goes by its type: the file, the address on a server,
/// or nothing. One on a server prefers what is kept exactly where it is fetched again
/// from time to time.
pub proof fn law_where_the_bytes_of_a_source_are(
    name: Seq<char>,
    cfg: RawRuleProvider,
    cache_dir: Option<Seq<char>>,
)
    ensures
        ({
            let s = rule_provider::source_of(name, cfg, cache_dir);
            let t = cfg.provider_type@;
            &&& s is Err <==> (t == "file"@ && cfg.path is None && cache_dir is None) || (t
                == "http"@ && cfg.url is None)
            &&& s == Ok::<SourceView, Seq<char>>(SourceView::Inline) <==> t != "file"@ && t
                != "http"@
            &&& s matches Ok(SourceView::File(p)) ==> t == "file"@ && rule_provider::path_of(
                cfg,
                cache_dir,
                name,
            ) == Some(p)
            &&& s matches Ok(SourceView::Http { url, cache, prefer_cache }) ==> t == "http"@ && (
            cfg.url matches Some(u) && url == u@) && cache == rule_provider::path_of(
                cfg,
                cache_dir,
                name,
            ) && (prefer_cache <==> (cfg.interval matches Some(n) && n > 0))
        }),
{
    lemma_names();
}

/// A list in plain text always loads, whether it lies in a file or on a server: its rules
/// are the lines of the text that are neither blank nor comments, without white space
/// around them and in order, just as plain text is read elsewhere.
pub proof fn law_plain_text_always_loads(
    name: Seq<char>,
    cfg: RawRuleProvider,
    cache_dir: Option<Seq<char>>,
    b: Received,
    now: u64,
    t: &str,
    lines: Vec<String>,
)
    requires
        cfg.behavior@ == "domain"@ || cfg.behavior@ == "ipcidr"@ || cfg.behavior@ == "classical"@,
        (cfg.provider_type@ == "file"@ && (cfg.path is Some || cache_dir is Some)) || (
        cfg.provider_type@ == "http"@ && cfg.url is Some),
        cfg.format matches Some(f) && f@ == "text"@,
        !b.compiled,
        valid_utf8(b.bytes@),
        t@ == decode_utf8(b.bytes@),
        call_ensures(rule_provider::parse_text_payload, (t,), lines),
    ensures
        rule_provider::loaded(name, cfg, cache_dir, Ok(b), now) matches Ok(p) && p.rules
            == EntriesView::Lines(text::views(lines@)),
{
    lemma_names();
}

/// The lines of a list are those that say something, in the order of the text: a line of
/// blanks, or one whose first sign is `#`, says nothing; of any other the text between
/// the blanks around it is kept.
pub proof fn law_lines_that_say_something_are_kept(
    a: Seq<Seq<char>>,
    b: Seq<Seq<char>>,
    line: Seq<char>,
)
    ensures
        geo::live_lines(a + b) == geo::live_lines(a) + geo::live_lines(b),
        ({
            let t = text::trimmed(line);
            &&& t.len() == 0 || t[0] == '#' ==> geo::live_lines(seq![line]).len() == 0
            &&& t.len() > 0 && t[0] != '#' ==> geo::live_lines(seq![line]) == seq![t]
        }),
    decreases b.len(),
{
    assert(seq![line].drop_last() =~= Seq::<Seq<char>>::empty());
    assert(geo::live_lines(Seq::empty()) =~= Seq::<Seq<char>>::empty());
    assert(Seq::<Seq<char>>::empty().push(text::trimmed(line)) =~= seq![text::trimmed(line)]);
    let x = geo::live_lines(a);
    if b.len() == 0 {
        assert(a + b =~= a);
        assert(x + geo::live_lines(b) =~= x);
    } else {
        let r = b.drop_last();
        law_lines_that_say_something_are_kept(a, r, line);
        assert((a + b).drop_last() =~= a + r);
        assert((a + b).last() == b.last());
        let y = geo::live_lines(r);
        let t = text::trimmed(b.last());
        assert(x + y.push(t) =~= (x + y).push(t));
    }
}

/// A plain text of rules, one on each line, gives these rules.
pub proof fn law_rules_in_plain_text_are_read_back(rules: Seq<Seq<char>>, t: &str, out: Vec<String>)
    requires
        forall|i: int|
            0 <= i < rules.len() ==> (#[trigger] rules[i]).len() > 0 && !rules[i].contains('\n')
                && rules[i][0] != '#' && !text::is_space(rules[i][0]) && !text::is_space(
                rules[i].last(),
            ),
        t@ == text::joined(rules.push(Seq::empty()), seq!['\n']),
        call_ensures(rule_provider::parse_text_payload, (t,), out),
    ensures
        text::views(out@) == rules,
{
    assert forall|i: int| 0 <= i < rules.len() implies !(#[trigger] rules[i]).contains('\n') && (
    rules[i].len() > 0 ==> rules[i].last() != '\r') by {
        text_laws::law_trimming_takes_white_space_off_the_ends(rules[i]);
    }
    text_laws::law_lines_are_read_back(rules, Seq::empty());
    lemma_all_live(rules);
}

proof fn lemma_all_live(rules: Seq<Seq<char>>)
    requires
        forall|i: int|
            0 <= i < rules.len() ==> (#[trigger] rules[i]).len() > 0 && rules[i][0] != '#'
                && !text::is_space(rules[i][0]) && !text::is_space(rules[i].last()),
    ensures
        geo::live_lines(rules) == rules,
    decreases rules.len(),
{
    if rules.len() > 0 {
        let r = rules.drop_last();
        assert forall|i: int| 0 <= i < r.len() implies (#[trigger] r[i]).len() > 0 && r[i][0] != '#'
            && !text::is_space(r[i][0]) && !text::is_space(r[i].last()) by {
            assert(r[i] == rules[i]);
        }
        lemma_all_live(r);
        assert(rules[rules.len() - 1] == rules.last());
        text_laws::law_trimmed_texts_stay(rules.last());
        assert(r.push(rules.last()) =~= rules);
    } else {
        assert(geo::live_lines(rules) =~= rules);
    }
}

/// What is read from bytes goes by the format that is named and by how the bytes begin. A
/// compiled set is kept as it is, or refused where it is broken. Anything else has to be
/// text: plain where the format says so, else a document whose list is taken. What is
/// not text is refused.
pub proof fn law_formats_are_read_as_they_are_named(
    bytes: Seq<u8>,
    compiled: bool,
    as_set: Result<(), String>,
    format: Option<RuleSetFormat>,
    items: Seq<Option<Seq<char>>>,
)
    ensures
        ({
            let r = rule_provider::entries_of(bytes, compiled, as_set, format);
            let set = compiled || format == Some(RuleSetFormat::Mrs);
            let plain = format == Some(RuleSetFormat::Text);
            let listed = rule_provider::yaml_items(decode_utf8(bytes), "payload"@);
            &&& set ==> (r is Ok <==> as_set is Ok)
            &&& set && r is Ok ==> r == Ok::<EntriesView, Seq<char>>(EntriesView::Compiled(bytes))
            &&& !set && !valid_utf8(bytes) ==> r is Err
            &&& !set && valid_utf8(bytes) && plain ==> r is Ok
            &&& !set && valid_utf8(bytes) && !plain ==> (r is Ok <==> (listed matches Ok(Some(
                Some(_),
            ))))
            &&& !set && valid_utf8(bytes) && !plain && listed
                == Ok::<Option<Option<Seq<Option<Seq<char>>>>>, Seq<char>>(Some(Some(items))) ==> r
                == Ok::<EntriesView, Seq<char>>(
                EntriesView::Lines(rule_provider::item_texts(items)),
            )
            &&& !set ==> !(r matches Ok(EntriesView::Compiled(_)))
        }),
{
}

/// The entries of a document's list are its texts, without white space around them and
/// in order; an entry that is no text, or a blank one, is passed over.
pub proof fn law_texts_of_a_list_are_kept(
    a: Seq<Option<Seq<char>>>,
    b: Seq<Option<Seq<char>>>,
    t: Seq<char>,
)
    ensures
        rule_provider::item_texts(a + b) == rule_provider::item_texts(a)
            + rule_provider::item_texts(b),
        rule_provider::item_texts(seq![None]).len() == 0,
        text::trimmed(t).len() > 0 ==> rule_provider::item_texts(seq![Some(t)]) == seq![
            text::trimmed(t),
        ],
        text::trimmed(t).len() == 0 ==> rule_provider::item_texts(seq![Some(t)]).len() == 0,
    decreases b.len(),
{
    let none = Seq::<Option<Seq<char>>>::empty();
    assert(seq![Some(t)].drop_last() =~= none);
    assert(seq![None::<Seq<char>>].drop_last() =~= none);
    assert(rule_provider::item_texts(none) =~= Seq::<Seq<char>>::empty());
    assert(Seq::<Seq<char>>::empty().push(text::trimmed(t)) =~= seq![text::trimmed(t)]);
    let x = rule_provider::item_texts(a);
    if b.len() == 0 {
        assert(a + b =~= a);
        assert(x + rule_provider::item_texts(b) =~= x);
    } else {
        let r = b.drop_last();
        law_texts_of_a_list_are_kept(a, r, t);
        assert((a + b).drop_last() =~= a + r);
        assert((a + b).last() == b.last());
        let y = rule_provider::item_texts(r);
        if let Some(z) = b.last() {
            assert(x + y.push(text::trimmed(z)) =~= (x + y).push(text::trimmed(z)));
        }
    }
}

/// When a source cannot be used: where its subject, its type or its format is unknown,
/// where what its type needs is missing, where its bytes did not come or cannot be read,
/// or where it is written out and yet to be fetched again.
pub proof fn law_when_a_source_cannot_be_used(
    name: Seq<char>,
    cfg: RawRuleProvider,
    cache_dir: Option<Seq<char>>,
    fetched: Fetched,
    now: u64,
)
    ensures
        ({
            let t = cfg.provider_type@;
            let known = cfg.behavior@ == "domain"@ || cfg.behavior@ == "ipcidr"@ || cfg.behavior@
                == "classical"@;
            let named = cfg.format matches Some(f) ==> f@ == "yaml"@ || f@ == "text"@ || f@
                == "mrs"@;
            let read = rule_provider::fetched_entries(fetched, rule_provider::format_of(cfg)) is Ok;
            rule_provider::loaded(name, cfg, cache_dir, fetched, now) is Ok <==> known && {
                ||| t == "inline"@ && cfg.payload is Some && !(cfg.interval matches Some(n) && n
                    > 0)
                ||| t == "file"@ && (cfg.path is Some || cache_dir is Some) && named && read
                ||| t == "http"@ && cfg.url is Some && named && read
            }
        }),
        fetched is Err ==> rule_provider::fetched_entries(
            fetched,
            rule_provider::format_of(cfg),
        ) is Err,
{
    lemma_names();
}

/// Every source that can be used is loaded, in the order of the configuration, and one
/// that cannot be used takes no other with it.
pub proof fn law_sources_load_one_by_one(
    raw: Seq<(String, RawRuleProvider)>,
    cache_dir: Option<Seq<char>>,
    fetched: Seq<Fetched>,
    now: u64,
    n: nat,
    i: int,
)
    requires
        n <= raw.len(),
        n <= fetched.len(),
        0 <= i < n,
    ensures
        rule_provider::loaded(raw[i].0@, raw[i].1, cache_dir, fetched[i], now) matches Ok(p)
            ==> rule_provider::all_loaded(raw, cache_dir, fetched, now, n).contains(p),
        rule_provider::loaded(
            raw[n - 1].0@,
            raw[n - 1].1,
            cache_dir,
            fetched[n - 1],
            now,
        ) matches Ok(p) ==> rule_provider::all_loaded(raw, cache_dir, fetched, now, n)
            == rule_provider::all_loaded(raw, cache_dir, fetched, now, (n - 1) as nat).push(p),
        rule_provider::loaded(raw[n - 1].0@, raw[n - 1].1, cache_dir, fetched[n - 1], now) is Err
            ==> rule_provider::all_loaded(raw, cache_dir, fetched, now, n)
            == rule_provider::all_loaded(raw, cache_dir, fetched, now, (n - 1) as nat),
        rule_provider::all_loaded(raw, cache_dir, fetched, now, n).len() <= n,
        rule_provider::all_loaded(raw, cache_dir, fetched, now, 0).len() == 0,
    decreases n,
{
    if n > 1 {
        let m = (n - 1) as nat;
        law_sources_load_one_by_one(raw, cache_dir, fetched, now, m, 0);
        if i < m {
            law_sources_load_one_by_one(raw, cache_dir, fetched, now, m, i);
        }
    }
    let all = rule_provider::all_loaded(raw, cache_dir, fetched, now, n);
    let had = rule_provider::all_loaded(raw, cache_dir, fetched, now, (n - 1) as nat);
    if let Ok(p) = rule_provider::loaded(raw[i].0@, raw[i].1, cache_dir, fetched[i], now) {
        if i < n - 1 {
            let k = had.index_of(p);
            assert(all[k] == p);
        } else {
            assert(all[all.len() - 1] == p);
        }
    }
}

/// Fetching a source again replaces its rules by those that came, as they are read where
/// no format is named, and sets its time; nothing else of it changes. A source that is
/// not on a server never changes, and one whose bytes cannot be read stays as it was.
pub proof fn law_a_refresh_replaces_the_rules_alone(
    before: ProviderView,
    after: ProviderView,
    fetched: Fetched,
    now: u64,
    r: Result<(), String>,
)
    requires
        rule_provider::refreshed(before, after, fetched, now, r),
    ensures
        after.name == before.name,
        after.provider_type == before.provider_type,
        after.behavior == before.behavior,
        after.vehicle == before.vehicle,
        after.interval == before.interval,
        !(before.provider_type is Http) || r is Err ==> after == before,
        before.provider_type is Http && r is Ok ==> after.updated_at == now && (
        fetched matches Ok(b) && rule_provider::entries_of(b.bytes@, b.compiled, b.as_set, None)
            == Ok::<EntriesView, Seq<char>>(after.rules)),
        before.provider_type is Http ==> (r is Ok <==> (fetched matches Ok(b)
            && rule_provider::entries_of(b.bytes@, b.compiled, b.as_set, None) is Ok)),
        !(before.provider_type is Http) ==> r is Ok,
{
}

/// A download falls back on what is kept, and what came is kept. What is kept is read
/// first exactly where that is preferred and there is any.
pub proof fn law_downloads_and_kept_files(
    url: &str,
    cache: &Option<String>,
    cached: bool,
    prefer_cache: bool,
    first: CacheStep,
    fetched: Result<Vec<u8>, String>,
    then: CacheStep,
)
    requires
        call_ensures(
            rule_provider::fetch_http_blocking_with_cache,
            (url, cache, cached, prefer_cache),
            first,
        ),
        call_ensures(rule_provider::after_download, (fetched, cache, cached), then),
    ensures
        first is ReadCache <==> prefer_cache && cached && *cache is Some,
        first matches CacheStep::ReadCache(p) ==> (*cache matches Some(c) && p@ == c@),
        !(first is ReadCache) ==> (first matches CacheStep::Download(u) && u@ == url@),
        fetched matches Ok(b) ==> (then matches CacheStep::Use { bytes, keep } && bytes@ == b@
            && text::opt_view(keep) == text::opt_view(*cache)),
        fetched is Err && cached && *cache is Some ==> (then matches CacheStep::ReadCache(p) && p@
            == cache->0@),
        fetched matches Err(e) ==> (!cached || *cache is None ==> (then matches CacheStep::Failed(m)
            && m@ == e@)),
{
}

} // verus!
