//! Sources of rules: where their rules come from and how they are read.

use crate::config::geo;
use crate::config::raw::RawRuleProvider;
use crate::paths;
use crate::text;
use vstd::prelude::*;
use vstd::string::*;
use vstd::utf8::*;

verus! {

/// Where the rules of a source come from.
#[derive(Clone, Copy, Debug, PartialEq, Eq, Structural)]
pub enum ProviderType {
    Http,
    File,
    Inline,
}

/// The name of a kind of source.
pub open spec fn kind_name(t: ProviderType) -> Seq<char> {
    match t {
        ProviderType::Http => "http"@,
        ProviderType::File => "file"@,
        ProviderType::Inline => "inline"@,
    }
}

impl ProviderType {
    /// The name of the kind of source.
    pub fn name(&self) -> (s: String)
        ensures
            s@ == kind_name(*self),
    {
        match self {
            ProviderType::Http => "http".to_owned(),
            ProviderType::File => "file".to_owned(),
            ProviderType::Inline => "inline".to_owned(),
        }
    }
}

/// What the rules of a source are about.
#[derive(Clone, Copy, Debug, PartialEq, Eq, Structural)]
pub enum RuleSetBehavior {
    Domain,
    IpCidr,
    Classical,
}

/// How the rules of a source are written.
#[derive(Clone, Copy, Debug, PartialEq, Eq, Structural)]
pub enum RuleSetFormat {
    Yaml,
    Text,
    /// A compiled set.
    Mrs,
}

/// Where the file of a source is, if it has a place.
pub open spec fn path_of(
    cfg: RawRuleProvider,
    cache_dir: Option<Seq<char>>,
    name: Seq<char>,
) -> Option<Seq<char>> {
    match (cfg.path, cache_dir) {
        (Some(p), Some(d)) => Some(paths::joined(d, p@)),
        (Some(p), None) => Some(p@),
        (None, Some(d)) => Some(
            paths::joined(paths::joined(d, "rule-providers"@), name + ".yaml"@),
        ),
        (None, None) => None,
    }
}

/// The text of an optional string slice.
pub open spec fn opt_str_view(o: Option<&str>) -> Option<Seq<char>> {
    match o {
        Some(s) => Some(s@),
        None => None,
    }
}

/// Where the file of a source is: where it is set, below the directory for files,
/// or in its usual place there.
pub fn resolve_path(cfg: &RawRuleProvider, cache_dir: Option<&str>, name: &str) -> (r: Option<
    String,
>)
    ensures
        text::opt_view(r) == path_of(*cfg, opt_str_view(cache_dir), name@),
{
    match (&cfg.path, cache_dir) {
        (Some(p), Some(d)) => Some(paths::join(d, p.as_str())),
        (Some(p), None) => Some(p.clone()),
        (None, Some(d)) => {
            let file = name.to_owned().concat(".yaml");
            Some(paths::join(paths::join(d, "rule-providers").as_str(), file.as_str()))
        },
        (None, None) => None,
    }
}

/// Where the bytes of a source come from.
#[derive(Clone, Debug)]
pub enum Source {
    /// The rules stand in the configuration.
    Inline,
    File(String),
    Http {
        url: String,
        /// Where the bytes are kept.
        cache: Option<String>,
        /// Whether what is kept is used before anything is fetched.
        prefer_cache: bool,
    },
}

/// A [`Source`] with its texts as sequences.
pub enum SourceView {
    Inline,
    File(Seq<char>),
    Http { url: Seq<char>, cache: Option<Seq<char>>, prefer_cache: bool },
}

impl View for Source {
    type V = SourceView;

    open spec fn view(&self) -> SourceView {
        match self {
            Source::Inline => SourceView::Inline,
            Source::File(p) => SourceView::File(p@),
            Source::Http { url, cache, prefer_cache } => SourceView::Http {
                url: url@,
                cache: text::opt_view(*cache),
                prefer_cache: *prefer_cache,
            },
        }
    }
}

/// Whether a source is fetched again from time to time.
pub open spec fn repeats(cfg: RawRuleProvider) -> bool {
    cfg.interval matches Some(n) && n > 0
}

/// Where the bytes of a source come from, or how it is told that it does not say.
pub open spec fn source_of(
    name: Seq<char>,
    cfg: RawRuleProvider,
    cache_dir: Option<Seq<char>>,
) -> Result<SourceView, Seq<char>> {
    let path = path_of(cfg, cache_dir, name);
    if cfg.provider_type@ == "file"@ {
        match path {
            Some(p) => Ok(SourceView::File(p)),
            None => Err("file provider '"@ + name + "' requires a 'path'"@),
        }
    } else if cfg.provider_type@ == "http"@ {
        match cfg.url {
            Some(u) => Ok(
                SourceView::Http { url: u@, cache: path, prefer_cache: repeats(cfg) },
            ),
            None => Err("http provider '"@ + name + "' requires a 'url'"@),
        }
    } else {
        Ok(SourceView::Inline)
    }
}

/// Where the bytes of a source come from. A source that is fetched again from time
/// to time starts with what is kept of it.
pub fn read_payload_bytes(name: &str, cfg: &RawRuleProvider, cache_dir: Option<&str>) -> (r: Result<
    Source,
    String,
>)
    ensures
        (match (r, source_of(name@, *cfg, opt_str_view(cache_dir))) {
            (Ok(s), Ok(v)) => s@ == v,
            (Err(e), Err(m)) => e@ == m,
            _ => false,
        }),
{
    if text::same(cfg.provider_type.as_str(), "file") {
        match resolve_path(cfg, cache_dir, name) {
            Some(p) => Ok(Source::File(p)),
            None => Err("file provider '".to_owned().concat(name).concat("' requires a 'path'")),
        }
    } else if text::same(cfg.provider_type.as_str(), "http") {
        match &cfg.url {
            Some(u) => {
                let cache = resolve_path(cfg, cache_dir, name);
                let prefer_cache = match cfg.interval {
                    Some(n) => n > 0,
                    None => false,
                };
                Ok(Source::Http { url: u.clone(), cache, prefer_cache })
            },
            None => Err("http provider '".to_owned().concat(name).concat("' requires a 'url'")),
        }
    } else {
        Ok(Source::Inline)
    }
}

/// What to do to get the bytes of a source over the network.
#[derive(Debug)]
pub enum CacheStep {
    /// Read what is kept.
    ReadCache(String),
    /// Fetch, and come back with what came of it.
    Download(String),
    /// Use the bytes, and keep them where there is a place.
    Use { bytes: Vec<u8>, keep: Option<String> },
    Failed(String),
}

/// The first step: what is kept is used where that is preferred.
pub fn fetch_http_blocking_with_cache(
    url: &str,
    cache: &Option<String>,
    cached: bool,
    prefer_cache: bool,
) -> (s: CacheStep)
    ensures
        (match (s, *cache) {
            (CacheStep::ReadCache(p), Some(c)) => prefer_cache && cached && p@ == c@,
            (CacheStep::Download(u), Some(_)) => !(prefer_cache && cached) && u@ == url@,
            (CacheStep::Download(u), None) => u@ == url@,
            _ => false,
        }),
{
    if prefer_cache && cached {
        if let Some(c) = cache {
            return CacheStep::ReadCache(c.clone());
        }
    }
    CacheStep::Download(url.to_owned())
}

/// The step after a fetch: what came is kept, and what is kept stands in for what
/// did not come.
pub fn after_download(
    fetched: Result<Vec<u8>, String>,
    cache: &Option<String>,
    cached: bool,
) -> (s: CacheStep)
    ensures
        (match fetched {
            Ok(b) => s matches CacheStep::Use { bytes, keep } && bytes@ == b@ && text::opt_view(
                keep,
            ) == text::opt_view(*cache),
            Err(e) => match *cache {
                Some(c) if cached => s matches CacheStep::ReadCache(p) && p@ == c@,
                _ => s matches CacheStep::Failed(m) && m@ == e@,
            },
        }),
{
    match fetched {
        Ok(bytes) => {
            let keep = match cache {
                Some(c) => Some(c.clone()),
                None => None,
            };
            CacheStep::Use { bytes, keep }
        },
        Err(e) => {
            if cached {
                if let Some(c) = cache {
                    return CacheStep::ReadCache(c.clone());
                }
            }
            CacheStep::Failed(e)
        },
    }
}

/// The first characters of a text.
pub open spec fn first_chars(s: Seq<char>, n: nat) -> Seq<char> {
    if s.len() > n {
        s.take(n as int)
    } else {
        s
    }
}

/// How an answer is told that is no success: its status, and the start of what came
/// with it.
pub fn status_error(status: &str, body: &Vec<u8>) -> (s: String)
    ensures
        s@ == "HTTP "@ + status@ + ": "@ + first_chars(text::utf8_lossy(body@), 200),
{
    let t = text::lossy(body.as_slice());
    let c = text::chars_of(t.as_str());
    let n: usize = if c.len() > 200 {
        200
    } else {
        c.len()
    };
    let start = text::string_range(&c, 0, n);
    assert(start@ =~= first_chars(t@, 200));
    "HTTP ".to_owned().concat(status).concat(": ").concat(start.as_str())
}

/// What came of reading the bytes of a source: nothing for one that has none.
pub type ReadBytes = Result<Option<Vec<u8>>, String>;

/// Whether sources of a type keep their lines elsewhere, in a file or on a server.
pub open spec fn kept_elsewhere(provider_type: Seq<char>) -> bool {
    provider_type == "file"@ || provider_type == "http"@
}

/// The bytes that are listed for a source: those that came, where the source keeps
/// its lines elsewhere and says where.
pub open spec fn payload_of(
    p: (String, RawRuleProvider),
    cache_dir: Option<Seq<char>>,
    read: ReadBytes,
) -> Option<Seq<u8>> {
    match (source_of(p.0@, p.1, cache_dir), read) {
        (Ok(SourceView::File(_)), Ok(Some(b))) => Some(b@),
        (Ok(SourceView::Http { .. }), Ok(Some(b))) => Some(b@),
        _ => None,
    }
}

/// The bytes that are listed for the first `n` sources, with their names.
pub open spec fn payloads_of(
    p: Seq<(String, RawRuleProvider)>,
    cache_dir: Option<Seq<char>>,
    read: Seq<ReadBytes>,
    n: nat,
) -> Seq<(Seq<char>, Seq<u8>)>
    decreases n,
{
    if n == 0 {
        Seq::empty()
    } else {
        let r = payloads_of(p, cache_dir, read, (n - 1) as nat);
        match payload_of(p[n - 1], cache_dir, read[n - 1]) {
            Some(b) => r.push((p[n - 1].0@, b)),
            None => r,
        }
    }
}

/// Bytes with names as mathematical values.
pub open spec fn payload_views(v: Seq<(String, Vec<u8>)>) -> Seq<(Seq<char>, Seq<u8>)> {
    v.map_values(|x: (String, Vec<u8>)| (x.0@, x.1@))
}

/// Whether bytes are listed under a name for one of the first `n` sources.
pub open spec fn payload_from(
    p: Seq<(String, RawRuleProvider)>,
    cache_dir: Option<Seq<char>>,
    read: Seq<ReadBytes>,
    n: nat,
    entry: (Seq<char>, Seq<u8>),
) -> bool {
    exists|i: int|
        0 <= i < n && (#[trigger] p[i]).0@ == entry.0 && payload_of(p[i], cache_dir, read[i]) == Some(
            entry.1,
        )
}

/// Bytes are listed under a name exactly where a source of that name keeps its
/// lines elsewhere, says where, and they came for it. A source that is written out,
/// or whose type is unknown, is never listed, and one that failed takes no other
/// with it.
pub proof fn law_payloads_are_of_sources_kept_elsewhere(
    p: Seq<(String, RawRuleProvider)>,
    cache_dir: Option<Seq<char>>,
    read: Seq<ReadBytes>,
    n: nat,
    entry: (Seq<char>, Seq<u8>),
)
    requires
        n <= p.len(),
        n <= read.len(),
    ensures
        payloads_of(p, cache_dir, read, n).contains(entry) <==> payload_from(
            p,
            cache_dir,
            read,
            n,
            entry,
        ),
        forall|i: int|
            0 <= i < n && payload_of(#[trigger] p[i], cache_dir, read[i]) is Some
                ==> kept_elsewhere(p[i].1.provider_type@),
    decreases n,
{
    if n > 0 {
        let m = (n - 1) as nat;
        law_payloads_are_of_sources_kept_elsewhere(p, cache_dir, read, m, entry);
        let had = payloads_of(p, cache_dir, read, m);
        let now = payloads_of(p, cache_dir, read, n);
        if had.contains(entry) {
            let j = had.index_of(entry);
            assert(now[j] == entry);
        }
        if now.contains(entry) && !had.contains(entry) {
            let j = now.index_of(entry);
            if j < had.len() {
                assert(had[j] == entry);
            }
            assert(p[n - 1].0@ == entry.0);
        }
        if payload_from(p, cache_dir, read, n, entry) && !had.contains(entry) {
            let i = choose|i: int|
                0 <= i < n && (#[trigger] p[i]).0@ == entry.0 && payload_of(
                    p[i],
                    cache_dir,
                    read[i],
                ) == Some(entry.1);
            assert(i == n - 1);
            assert(now.last() == entry);
        }
    }
}

/// The bytes that came for sources, with their names. A source that could not be
/// read is passed over, and so is one whose lines are not kept elsewhere.
pub fn prefetch_payloads(
    raw_providers: &Vec<(String, RawRuleProvider)>,
    cache_dir: Option<&str>,
    read: Vec<ReadBytes>,
) -> (out: Vec<(String, Vec<u8>)>)
    requires
        raw_providers@.len() == read@.len(),
    ensures
        payload_views(out@) == payloads_of(
            raw_providers@,
            opt_str_view(cache_dir),
            read@,
            read@.len(),
        ),
        forall|k: int|
            0 <= k < out@.len() ==> exists|i: int|
                0 <= i < raw_providers@.len() && (#[trigger] out@[k]).0@ == (
                #[trigger] raw_providers@[i]).0@ && kept_elsewhere(
                    raw_providers@[i].1.provider_type@,
                ) && payload_of(raw_providers@[i], opt_str_view(cache_dir), read@[i]) == Some(
                    out@[k].1@,
                ),
        forall|i: int|
            0 <= i < raw_providers@.len() ==> (payload_of(
                #[trigger] raw_providers@[i],
                opt_str_view(cache_dir),
                read@[i],
            ) matches Some(b) ==> payload_views(out@).contains((raw_providers@[i].0@, b))),
{
    let ghost dir = opt_str_view(cache_dir);
    let ghost all = read@;
    let mut rest = read;
    let mut out: Vec<(String, Vec<u8>)> = Vec::new();
    let mut i: usize = 0;
    assert(payload_views(out@) =~= Seq::empty());
    while i < raw_providers.len()
        invariant
            i <= raw_providers@.len(),
            all == read@,
            dir == opt_str_view(cache_dir),
            raw_providers@.len() == all.len(),
            rest@ == all.skip(i as int),
            payload_views(out@) == payloads_of(raw_providers@, dir, all, i as nat),
        decreases raw_providers@.len() - i,
    {
        let ghost had = payload_views(out@);
        let r = rest.remove(0);
        assert(r == all[i as int]);
        assert(rest@ =~= all.skip(i + 1));
        let source = read_payload_bytes(raw_providers[i].0.as_str(), &raw_providers[i].1, cache_dir);
        let elsewhere = matches!(source, Ok(Source::File(_)) | Ok(Source::Http { .. }));
        if let Ok(Some(b)) = r {
            if elsewhere {
                let ghost entry = (raw_providers@[i as int].0@, b@);
                out.push((raw_providers[i].0.clone(), b));
                assert(payload_views(out@) =~= had.push(entry));
            }
        }
        i += 1;
    }
    proof {
        let views = payload_views(out@);
        assert forall|k: int| 0 <= k < out@.len() implies exists|i: int|
            0 <= i < raw_providers@.len() && (#[trigger] out@[k]).0@ == (
            #[trigger] raw_providers@[i]).0@ && kept_elsewhere(raw_providers@[i].1.provider_type@)
                && payload_of(raw_providers@[i], dir, all[i]) == Some(out@[k].1@) by {
            let entry = views[k];
            assert(views.contains(entry));
            law_payloads_are_of_sources_kept_elsewhere(
                raw_providers@,
                dir,
                all,
                all.len(),
                entry,
            );
            assert(payload_from(raw_providers@, dir, all, all.len(), entry));
        }
        assert forall|i: int| 0 <= i < raw_providers@.len() implies (payload_of(
            #[trigger] raw_providers@[i],
            dir,
            all[i],
        ) matches Some(b) ==> views.contains((raw_providers@[i].0@, b))) by {
            if let Some(b) = payload_of(raw_providers@[i], dir, all[i]) {
                law_payloads_are_of_sources_kept_elsewhere(
                    raw_providers@,
                    dir,
                    all,
                    all.len(),
                    (raw_providers@[i].0@, b),
                );
            }
        }
    }
    out
}

/// What stands under a key of a YAML document: how it is told that the text is no
/// document, nothing where there is no such key, nothing inside where it is no list,
/// and else its items, of which the texts are given.
pub uninterp spec fn yaml_items(t: Seq<char>, key: Seq<char>) -> Result<
    Option<Option<Seq<Option<Seq<char>>>>>,
    Seq<char>,
>;

/// What was read under a key of a document.
pub type Items = Result<Option<Option<Vec<Option<String>>>>, String>;

/// What was read, as mathematical values.
pub open spec fn items_view(r: Items) -> Result<Option<Option<Seq<Option<Seq<char>>>>>, Seq<char>> {
    match r {
        Ok(Some(Some(v))) => Ok(
            Some(Some(v@.map_values(|s: Option<String>| text::opt_view(s)))),
        ),
        Ok(Some(None)) => Ok(Some(None)),
        Ok(None) => Ok(None),
        Err(e) => Err(e@),
    }
}

/// `serde_yaml::from_str` reads a document; `get`, `as_sequence` and `as_str` give
/// the value under the key, its items where it is a list, and the text of each item
/// that is text.
#[verifier::external_body]
pub(crate) fn read_items(t: &str, key: &str) -> (r: Items)
    ensures
        items_view(r) == yaml_items(t@, key@),
{
    let root: serde_yaml::Value = serde_yaml::from_str(t).map_err(|e| e.to_string())?;
    let text_of = |v: &serde_yaml::Value| v.as_str().map(|s| s.to_owned());
    let items = |v: &Vec<serde_yaml::Value>| v.iter().map(text_of).collect();
    Ok(root.get(key).map(|p| p.as_sequence().map(items)))
}

/// The texts among items that are not blank, without blanks around them.
pub open spec fn item_texts(s: Seq<Option<Seq<char>>>) -> Seq<Seq<char>>
    decreases s.len(),
{
    if s.len() == 0 {
        Seq::empty()
    } else {
        let r = item_texts(s.drop_last());
        match s.last() {
            Some(t) => if text::trimmed(t).len() > 0 {
                r.push(text::trimmed(t))
            } else {
                r
            },
            None => r,
        }
    }
}

/// The rules of a document, or how it is told that there are none.
pub open spec fn yaml_rules(
    p: Result<Option<Option<Seq<Option<Seq<char>>>>>, Seq<char>>,
) -> Result<Seq<Seq<char>>, Seq<char>> {
    match p {
        Err(e) => Err("rule-set yaml parse error: "@ + e),
        Ok(None) => Err("rule-set yaml missing 'payload' key"@),
        Ok(Some(None)) => Err("rule-set 'payload' is not a sequence"@),
        Ok(Some(Some(items))) => Ok(item_texts(items)),
    }
}

/// Whether a list of texts or an error is this one.
pub open spec fn same_rules(
    r: Result<Vec<String>, String>,
    w: Result<Seq<Seq<char>>, Seq<char>>,
) -> bool {
    match (r, w) {
        (Ok(v), Ok(t)) => text::views(v@) == t,
        (Err(e), Err(m)) => e@ == m,
        _ => false,
    }
}

fn texts_of(v: &Vec<Option<String>>) -> (out: Vec<String>)
    ensures
        text::views(out@) == item_texts(v@.map_values(|s: Option<String>| text::opt_view(s))),
{
    let ghost all = v@.map_values(|s: Option<String>| text::opt_view(s));
    let mut out = text::no_strings();
    let mut i: usize = 0;
    assert(all.take(0) =~= Seq::empty());
    while i < v.len()
        invariant
            i <= v@.len(),
            all == v@.map_values(|s: Option<String>| text::opt_view(s)),
            text::views(out@) == item_texts(all.take(i as int)),
        decreases v@.len() - i,
    {
        assert(all.take(i + 1).drop_last() =~= all.take(i as int));
        assert(all.take(i + 1).last() == text::opt_view(v@[i as int]));
        if let Some(s) = &v[i] {
            let t = text::trim(s.as_str());
            if t.as_str().unicode_len() > 0 {
                text::push_string(&mut out, t);
            }
        }
        i += 1;
    }
    assert(all.take(i as int) =~= all);
    out
}

/// The rules of a document that was read.
pub fn rules_of_items(items: &Items) -> (r: Result<Vec<String>, String>)
    ensures
        same_rules(r, yaml_rules(items_view(*items))),
{
    match items {
        Err(e) => Err("rule-set yaml parse error: ".to_owned().concat(e.as_str())),
        Ok(None) => Err("rule-set yaml missing 'payload' key".to_owned()),
        Ok(Some(None)) => Err("rule-set 'payload' is not a sequence".to_owned()),
        Ok(Some(Some(v))) => Ok(texts_of(v)),
    }
}

/// The rules of a YAML document: the texts of the list under `payload`.
pub fn parse_yaml_payload(raw: &str) -> (r: Result<Vec<String>, String>)
    ensures
        same_rules(r, yaml_rules(yaml_items(raw@, "payload"@))),
{
    let items = read_items(raw, "payload");
    rules_of_items(&items)
}

/// The rules of a text: its lines that are neither blank nor comments.
pub fn parse_text_payload(raw: &str) -> (out: Vec<String>)
    ensures
        text::views(out@) == geo::live_lines(text::line_list(raw@)),
{
    let lines = text::lines(raw);
    geo::live_of(&lines)
}

/// The rules of a source.
#[derive(Debug)]
pub enum RuleEntries {
    Lines(Vec<String>),
    /// A compiled set.
    Compiled(Vec<u8>),
}

/// [`RuleEntries`] as mathematical values.
pub enum EntriesView {
    Lines(Seq<Seq<char>>),
    Compiled(Seq<u8>),
}

impl View for RuleEntries {
    type V = EntriesView;

    open spec fn view(&self) -> EntriesView {
        match self {
            RuleEntries::Lines(v) => EntriesView::Lines(text::views(v@)),
            RuleEntries::Compiled(b) => EntriesView::Compiled(b@),
        }
    }
}

/// What came for a source.
#[derive(Debug)]
pub struct Received {
    pub bytes: Vec<u8>,
    /// Whether the bytes begin as a compiled set does.
    pub compiled: bool,
    /// What came of reading the bytes as a compiled set. It is only looked at where
    /// they are taken for one.
    pub as_set: Result<(), String>,
}

/// The rules in the bytes of a source. Bytes that begin as a compiled set does are
/// taken for one, whatever format is set, and must be one.
pub open spec fn entries_of(
    bytes: Seq<u8>,
    compiled: bool,
    as_set: Result<(), String>,
    format: Option<RuleSetFormat>,
) -> Result<EntriesView, Seq<char>> {
    if format == Some(RuleSetFormat::Mrs) || compiled {
        match as_set {
            Ok(_) => Ok(EntriesView::Compiled(bytes)),
            Err(e) => Err("mrs parse error: "@ + e@),
        }
    } else if !valid_utf8(bytes) {
        Err("payload is not valid UTF-8"@)
    } else if format == Some(RuleSetFormat::Text) {
        Ok(EntriesView::Lines(geo::live_lines(text::line_list(decode_utf8(bytes)))))
    } else {
        match yaml_rules(yaml_items(decode_utf8(bytes), "payload"@)) {
            Ok(l) => Ok(EntriesView::Lines(l)),
            Err(e) => Err(e),
        }
    }
}

/// The rules in the bytes of a source.
pub fn parse_bytes_to_ruleset_with_format(
    bytes: Vec<u8>,
    compiled: bool,
    as_set: Result<(), String>,
    explicit_format: Option<RuleSetFormat>,
) -> (r: Result<RuleEntries, String>)
    ensures
        (match (r, entries_of(bytes@, compiled, as_set, explicit_format)) {
            (Ok(v), Ok(w)) => v@ == w,
            (Err(e), Err(m)) => e@ == m,
            _ => false,
        }),
{
    let mrs = match explicit_format {
        Some(f) => f == RuleSetFormat::Mrs,
        None => false,
    };
    if mrs || compiled {
        return match as_set {
            Ok(_) => Ok(RuleEntries::Compiled(bytes)),
            Err(e) => Err("mrs parse error: ".to_owned().concat(e.as_str())),
        };
    }
    let t = match text::decode(bytes.as_slice()) {
        Ok(t) => t,
        Err(_e) => return Err("payload is not valid UTF-8".to_owned()),
    };
    let plain = match explicit_format {
        Some(f) => f == RuleSetFormat::Text,
        None => false,
    };
    if plain {
        Ok(RuleEntries::Lines(parse_text_payload(t.as_str())))
    } else {
        match parse_yaml_payload(t.as_str()) {
            Ok(v) => Ok(RuleEntries::Lines(v)),
            Err(e) => Err(e),
        }
    }
}

/// What the rules of a source are about, as a text names it.
pub open spec fn behavior_of(s: Seq<char>) -> Option<RuleSetBehavior> {
    if s == "domain"@ {
        Some(RuleSetBehavior::Domain)
    } else if s == "ipcidr"@ {
        Some(RuleSetBehavior::IpCidr)
    } else if s == "classical"@ {
        Some(RuleSetBehavior::Classical)
    } else {
        None
    }
}

/// Reads what the rules of a source are about.
pub fn parse_behavior(s: &str) -> (r: Result<RuleSetBehavior, String>)
    ensures
        (match r {
            Ok(b) => behavior_of(s@) == Some(b),
            Err(e) => behavior_of(s@) is None && e@ == "unknown rule-set behavior: "@ + s@,
        }),
{
    if text::same(s, "domain") {
        Ok(RuleSetBehavior::Domain)
    } else if text::same(s, "ipcidr") {
        Ok(RuleSetBehavior::IpCidr)
    } else if text::same(s, "classical") {
        Ok(RuleSetBehavior::Classical)
    } else {
        Err("unknown rule-set behavior: ".to_owned().concat(s))
    }
}

/// How the rules of a source are written, as a text names it.
pub open spec fn format_named(s: Seq<char>) -> Option<RuleSetFormat> {
    if s == "yaml"@ {
        Some(RuleSetFormat::Yaml)
    } else if s == "text"@ {
        Some(RuleSetFormat::Text)
    } else if s == "mrs"@ {
        Some(RuleSetFormat::Mrs)
    } else {
        None
    }
}

/// Why the format of a source cannot be used.
pub open spec fn format_error(cfg: RawRuleProvider) -> Option<Seq<char>> {
    match cfg.format {
        Some(f) => if format_named(f@) is None {
            Some("unknown rule-set format: "@ + f@)
        } else {
            None
        },
        None => None,
    }
}

/// The format that is set.
pub open spec fn format_of(cfg: RawRuleProvider) -> Option<RuleSetFormat> {
    match cfg.format {
        Some(f) => format_named(f@),
        None => None,
    }
}

/// Reads the format that is set for a source.
pub fn parse_explicit_format(cfg: &RawRuleProvider) -> (r: Result<Option<RuleSetFormat>, String>)
    ensures
        (match r {
            Ok(f) => format_error(*cfg) is None && f == format_of(*cfg),
            Err(e) => format_error(*cfg) == Some(e@),
        }),
{
    match &cfg.format {
        Some(f) => {
            if text::same(f.as_str(), "yaml") {
                Ok(Some(RuleSetFormat::Yaml))
            } else if text::same(f.as_str(), "text") {
                Ok(Some(RuleSetFormat::Text))
            } else if text::same(f.as_str(), "mrs") {
                Ok(Some(RuleSetFormat::Mrs))
            } else {
                Err("unknown rule-set format: ".to_owned().concat(f.as_str()))
            }
        },
        None => Ok(None),
    }
}

/// A source of rules that was read.
#[derive(Debug)]
pub struct RuleProvider {
    pub name: String,
    pub provider_type: ProviderType,
    pub behavior: RuleSetBehavior,
    /// Where the rules come from, as it is shown; empty for rules that stand in the
    /// configuration.
    pub vehicle: String,
    /// How often the rules are fetched again, in seconds; zero means never.
    pub interval: u64,
    /// When the rules were last read, in seconds.
    updated_at: u64,
    rules: RuleEntries,
}

/// A [`RuleProvider`] as mathematical values.
pub struct ProviderView {
    pub name: Seq<char>,
    pub provider_type: ProviderType,
    pub behavior: RuleSetBehavior,
    pub vehicle: Seq<char>,
    pub interval: u64,
    pub updated_at: u64,
    pub rules: EntriesView,
}

impl View for RuleProvider {
    type V = ProviderView;

    closed spec fn view(&self) -> ProviderView {
        ProviderView {
            name: self.name@,
            provider_type: self.provider_type,
            behavior: self.behavior,
            vehicle: self.vehicle@,
            interval: self.interval,
            updated_at: self.updated_at,
            rules: self.rules@,
        }
    }
}

/// What came for a source, or why nothing did.
pub type Fetched = Result<Received, String>;

/// The rules of what came for a source.
pub open spec fn fetched_entries(f: Fetched, format: Option<RuleSetFormat>) -> Result<
    EntriesView,
    Seq<char>,
> {
    match f {
        Err(e) => Err(e@),
        Ok(b) => entries_of(b.bytes@, b.compiled, b.as_set, format),
    }
}

/// A source and its rules, or how it is told that it cannot be used.
pub open spec fn loaded(
    name: Seq<char>,
    cfg: RawRuleProvider,
    cache_dir: Option<Seq<char>>,
    fetched: Fetched,
    now: u64,
) -> Result<ProviderView, Seq<char>> {
    match behavior_of(cfg.behavior@) {
        None => Err("unknown rule-set behavior: "@ + cfg.behavior@),
        Some(behavior) => {
            let t = cfg.provider_type@;
            if t == "inline"@ {
                if repeats(cfg) {
                    Err(
                        "rule-provider '"@ + name
                            + "': inline providers cannot refresh; remove the `interval:` field (Class A per ADR-0002)"@,
                    )
                } else {
                    match cfg.payload {
                        None => Err(
                            "rule-provider '"@ + name + "': inline type requires `payload:`"@,
                        ),
                        Some(p) => Ok(
                            ProviderView {
                                name,
                                provider_type: ProviderType::Inline,
                                behavior,
                                vehicle: Seq::empty(),
                                interval: 0,
                                updated_at: now,
                                rules: EntriesView::Lines(text::views(p@)),
                            },
                        ),
                    }
                }
            } else if t == "file"@ {
                match path_of(cfg, cache_dir, name) {
                    None => Err("file provider '"@ + name + "' requires a 'path'"@),
                    Some(path) => if fetched is Err {
                        Err(fetched->Err_0@)
                    } else if format_error(cfg) is Some {
                        Err(format_error(cfg)->0)
                    } else {
                        match fetched_entries(fetched, format_of(cfg)) {
                            Err(e) => Err(e),
                            Ok(rules) => Ok(
                                ProviderView {
                                    name,
                                    provider_type: ProviderType::File,
                                    behavior,
                                    vehicle: path,
                                    interval: 0,
                                    updated_at: now,
                                    rules,
                                },
                            ),
                        }
                    },
                }
            } else if t == "http"@ {
                match cfg.url {
                    None => Err("http provider '"@ + name + "' requires a 'url'"@),
                    Some(url) => if format_error(cfg) is Some {
                        Err(format_error(cfg)->0)
                    } else {
                        match fetched_entries(fetched, format_of(cfg)) {
                            Err(e) => Err(e),
                            Ok(rules) => Ok(
                                ProviderView {
                                    name,
                                    provider_type: ProviderType::Http,
                                    behavior,
                                    vehicle: url@,
                                    interval: match cfg.interval {
                                        Some(n) => n,
                                        None => 0,
                                    },
                                    updated_at: now,
                                    rules,
                                },
                            ),
                        }
                    },
                }
            } else {
                Err("unknown rule-provider type: "@ + t)
            }
        },
    }
}

fn read_fetched(f: Fetched, format: Option<RuleSetFormat>) -> (r: Result<RuleEntries, String>)
    ensures
        (match (r, fetched_entries(f, format)) {
            (Ok(v), Ok(w)) => v@ == w,
            (Err(e), Err(m)) => e@ == m,
            _ => false,
        }),
{
    match f {
        Ok(b) => parse_bytes_to_ruleset_with_format(b.bytes, b.compiled, b.as_set, format),
        Err(e) => Err(e),
    }
}

fn load_inline(name: &str, cfg: &RawRuleProvider, behavior: RuleSetBehavior, now: u64) -> (r:
    Result<RuleProvider, String>)
    requires
        behavior_of(cfg.behavior@) == Some(behavior),
        cfg.provider_type@ == "inline"@,
    ensures
        forall|f: Fetched, d: Option<Seq<char>>| #[trigger]
            same_provider(r, loaded(name@, *cfg, d, f, now)),
{
    let again = match cfg.interval {
        Some(n) => n > 0,
        None => false,
    };
    if again {
        return Err(
            "rule-provider '".to_owned().concat(name).concat(
                "': inline providers cannot refresh; remove the `interval:` field (Class A per ADR-0002)",
            ),
        );
    }
    match &cfg.payload {
        Some(p) => {
            let vehicle = String::new();
            assert(vehicle@ =~= Seq::empty());
            Ok(
                RuleProvider {
                    name: name.to_owned(),
                    provider_type: ProviderType::Inline,
                    behavior,
                    vehicle,
                    interval: 0,
                    updated_at: now,
                    rules: RuleEntries::Lines(text::copy_strings(p)),
                },
            )
        },
        None => Err(
            "rule-provider '".to_owned().concat(name).concat(
                "': inline type requires `payload:`",
            ),
        ),
    }
}

/// Whether a result is a source or an error.
pub open spec fn same_provider(
    r: Result<RuleProvider, String>,
    w: Result<ProviderView, Seq<char>>,
) -> bool {
    match (r, w) {
        (Ok(p), Ok(v)) => p@ == v,
        (Err(e), Err(m)) => e@ == m,
        _ => false,
    }
}

/// Loads a source, given what came of reading its bytes. What came is not looked at
/// for a source whose rules stand in the configuration.
pub fn load_one(
    name: &str,
    cfg: &RawRuleProvider,
    cache_dir: Option<&str>,
    fetched: Fetched,
    now: u64,
) -> (r: Result<RuleProvider, String>)
    ensures
        same_provider(r, loaded(name@, *cfg, opt_str_view(cache_dir), fetched, now)),
{
    let behavior = match parse_behavior(cfg.behavior.as_str()) {
        Ok(b) => b,
        Err(e) => return Err(e),
    };
    let kind = cfg.provider_type.as_str();
    if text::same(kind, "inline") {
        let r = load_inline(name, cfg, behavior, now);
        assert(same_provider(r, loaded(name@, *cfg, opt_str_view(cache_dir), fetched, now)));
        r
    } else if text::same(kind, "file") {
        let path = match resolve_path(cfg, cache_dir, name) {
            Some(p) => p,
            None => {
                return Err(
                    "file provider '".to_owned().concat(name).concat("' requires a 'path'"),
                );
            },
        };
        if let Err(e) = fetched {
            return Err(e);
        }
        let format = match parse_explicit_format(cfg) {
            Ok(f) => f,
            Err(e) => return Err(e),
        };
        match read_fetched(fetched, format) {
            Ok(rules) => Ok(
                RuleProvider {
                    name: name.to_owned(),
                    provider_type: ProviderType::File,
                    behavior,
                    vehicle: path,
                    interval: 0,
                    updated_at: now,
                    rules,
                },
            ),
            Err(e) => Err(e),
        }
    } else if text::same(kind, "http") {
        let url = match &cfg.url {
            Some(u) => u.clone(),
            None => {
                return Err("http provider '".to_owned().concat(name).concat("' requires a 'url'"));
            },
        };
        let format = match parse_explicit_format(cfg) {
            Ok(f) => f,
            Err(e) => return Err(e),
        };
        let interval: u64 = match cfg.interval {
            Some(n) => n,
            None => 0,
        };
        match read_fetched(fetched, format) {
            Ok(rules) => Ok(
                RuleProvider {
                    name: name.to_owned(),
                    provider_type: ProviderType::Http,
                    behavior,
                    vehicle: url,
                    interval,
                    updated_at: now,
                    rules,
                },
            ),
            Err(e) => Err(e),
        }
    } else {
        Err("unknown rule-provider type: ".to_owned().concat(kind))
    }
}

/// Sources as mathematical values.
pub open spec fn provider_views(v: Seq<RuleProvider>) -> Seq<ProviderView> {
    v.map_values(|p: RuleProvider| p@)
}

/// The sources that can be used.
pub open spec fn all_loaded(
    raw: Seq<(String, RawRuleProvider)>,
    cache_dir: Option<Seq<char>>,
    fetched: Seq<Fetched>,
    now: u64,
    n: nat,
) -> Seq<ProviderView>
    decreases n,
{
    if n == 0 {
        Seq::empty()
    } else {
        let r = all_loaded(raw, cache_dir, fetched, now, (n - 1) as nat);
        match loaded(raw[n - 1].0@, raw[n - 1].1, cache_dir, fetched[n - 1], now) {
            Ok(p) => r.push(p),
            Err(_) => r,
        }
    }
}

/// Loads the sources of a configuration, given what came of reading their bytes. A
/// source that cannot be used is passed over.
pub fn load_providers_prefetched(
    raw_providers: &Vec<(String, RawRuleProvider)>,
    cache_dir: Option<&str>,
    fetched: Vec<Fetched>,
    now: u64,
) -> (out: Vec<RuleProvider>)
    requires
        raw_providers@.len() == fetched@.len(),
    ensures
        provider_views(out@) == all_loaded(
            raw_providers@,
            opt_str_view(cache_dir),
            fetched@,
            now,
            fetched@.len(),
        ),
{
    let ghost all = fetched@;
    let ghost dir = opt_str_view(cache_dir);
    let mut rest = fetched;
    let mut out: Vec<RuleProvider> = Vec::new();
    let mut i: usize = 0;
    assert(provider_views(out@) =~= Seq::empty());
    while i < raw_providers.len()
        invariant
            i <= raw_providers@.len(),
            all == fetched@,
            raw_providers@.len() == all.len(),
            dir == opt_str_view(cache_dir),
            rest@ == all.skip(i as int),
            provider_views(out@) == all_loaded(raw_providers@, dir, all, now, i as nat),
        decreases raw_providers@.len() - i,
    {
        let ghost had = provider_views(out@);
        let f = rest.remove(0);
        assert(f == all[i as int]);
        assert(rest@ =~= all.skip(i + 1));
        if let Ok(p) = load_one(
            raw_providers[i].0.as_str(),
            &raw_providers[i].1,
            cache_dir,
            f,
            now,
        ) {
            out.push(p);
            assert(provider_views(out@) =~= had.push(p@));
        }
        i += 1;
    }
    out
}

/// Whether a source was read again as what came says.
pub open spec fn refreshed(
    before: ProviderView,
    after: ProviderView,
    fetched: Fetched,
    now: u64,
    r: Result<(), String>,
) -> bool {
    if before.provider_type != ProviderType::Http {
        r is Ok && after == before
    } else {
        match (r, fetched_entries(fetched, None)) {
            (Ok(_), Ok(rules)) => after == (ProviderView { updated_at: now, rules, ..before }),
            (Err(e), Err(m)) => e@ == m && after == before,
            _ => false,
        }
    }
}

impl RuleProvider {
    /// The rules as they are now.
    pub fn snapshot(&self) -> (r: &RuleEntries)
        ensures
            r@ == self@.rules,
    {
        &self.rules
    }

    /// The name of the source.
    pub fn source_name(&self) -> (s: &str)
        ensures
            s@ == self@.name,
    {
        self.name.as_str()
    }

    /// Where the rules come from.
    pub fn kind(&self) -> (t: ProviderType)
        ensures
            t == self@.provider_type,
    {
        self.provider_type
    }

    /// What the rules are about.
    pub fn subject(&self) -> (b: RuleSetBehavior)
        ensures
            b == self@.behavior,
    {
        self.behavior
    }

    /// When the rules were last read.
    pub fn updated_at_secs(&self) -> (n: u64)
        ensures
            n == self@.updated_at,
    {
        self.updated_at
    }

    /// What has to be fetched to read the rules again: nothing where they do not
    /// come over the network.
    pub fn refresh_url(&self) -> (r: Option<&str>)
        ensures
            opt_str_view(r) == (if self@.provider_type == ProviderType::Http {
                Some(self@.vehicle)
            } else {
                None
            }),
    {
        if self.provider_type == ProviderType::Http {
            Some(self.vehicle.as_str())
        } else {
            None
        }
    }

    /// Takes what was fetched. Where nothing usable came, the rules stay.
    pub fn refresh(&mut self, fetched: Fetched, now: u64) -> (r: Result<(), String>)
        ensures
            refreshed(old(self)@, final(self)@, fetched, now, r),
    {
        if self.provider_type != ProviderType::Http {
            return Ok(());
        }
        match read_fetched(fetched, None) {
            Ok(rules) => {
                self.rules = rules;
                self.updated_at = now;
                Ok(())
            },
            Err(e) => Err(e),
        }
    }

    /// Whether the rules are fetched again from time to time.
    pub fn repeats(&self) -> (r: bool)
        ensures
            r == (self@.provider_type == ProviderType::Http && self@.interval > 0),
    {
        self.provider_type == ProviderType::Http && self.interval > 0
    }
}

/// A refresh that brings nothing usable keeps the rules and the time of the last that
/// did: where nothing came, where what came is no text, no document, or no compiled set
/// although it begins like one.
pub proof fn law_a_failed_refresh_keeps_the_last_good_rules(
    before: RuleProvider,
    after: RuleProvider,
    fetched: Fetched,
    now: u64,
    r: Result<(), String>,
)
    requires
        before@.provider_type == ProviderType::Http,
        refreshed(before@, after@, fetched, now, r),
    ensures
        fetched is Err ==> after@ == before@ && r is Err,
        fetched matches Ok(b) ==> (b.compiled && b.as_set is Err ==> after@ == before@ && r is Err),
        fetched matches Ok(b) ==> (!b.compiled && !valid_utf8(b.bytes@) ==> after@ == before@
            && r is Err),
        r is Err <==> fetched_entries(fetched, None) is Err,
{
}

/// The rules of every source, each under the name of its source.
pub fn snapshot_ruleset_map<'a>(providers: &'a Vec<RuleProvider>) -> (out: Vec<
    (&'a str, &'a RuleEntries),
>)
    ensures
        out@.len() == providers@.len(),
        forall|i: int|
            0 <= i < out@.len() ==> (#[trigger] out@[i]).0@ == providers@[i]@.name && out@[i].1@
                == providers@[i]@.rules,
{
    let mut out: Vec<(&'a str, &'a RuleEntries)> = Vec::new();
    let mut i: usize = 0;
    while i < providers.len()
        invariant
            i <= providers@.len(),
            out@.len() == i,
            forall|j: int|
                0 <= j < i ==> (#[trigger] out@[j]).0@ == providers@[j]@.name && out@[j].1@
                    == providers@[j]@.rules,
        decreases providers@.len() - i,
    {
        out.push((providers[i].source_name(), providers[i].snapshot()));
        i += 1;
    }
    out
}

} // verus!
