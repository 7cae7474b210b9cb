//! What holds of reading groups, sources, lists of ports and whole configurations, from
//! what is handed in to what comes back.

use crate::common::process;
use crate::config::geo;
use crate::config::group;
use crate::config::group::{GroupKind, GroupPlan};
use crate::config::member_laws;
use crate::config::proxy_registry;
use crate::config::proxy_registry::{Outside, RebuildError, RebuildResult};
use crate::config::raw;
use crate::config::raw::{PortErrorView, PortListError, RawConfig, RawProxyGroup};
use crate::config::rule_provider;
use crate::config::rule_provider::{EntriesView, RuleEntries, RuleSetFormat};
use crate::config::yaml;
use crate::config::yaml::{Yaml, YamlNumber};
use crate::net::SocketAddr;
use crate::number;
use crate::text;
use crate::text_laws;
use vstd::prelude::*;
use vstd::string::*;
use vstd::utf8::*;

verus! {

/// Whether each member that a group lists is known.
pub open spec fn all_listed_known(g: RawProxyGroup, existing: Seq<Seq<char>>) -> bool {
    forall|i: int|
        0 <= i < group::opt_list(g.proxies).len() ==> existing.contains(
            #[trigger] group::opt_list(g.proxies)[i],
        )
}

/// A group is of the kind that its type names, whichever way it is read. Read strictly,
/// it must know each member that it lists; a choice is kept only where there is a store.
pub proof fn law_groups_are_of_the_kind_they_name(
    g: &RawProxyGroup,
    existing: &Vec<String>,
    strict: bool,
    providers: &Vec<String>,
    store: bool,
    r: Result<GroupPlan, String>,
)
    requires
        call_ensures(group::parse_proxy_group_inner, (g, existing, strict, providers, store), r),
    ensures
        r matches Ok(p) ==> {
            &&& p.name@ == g.name@
            &&& g.group_type@ == "select"@ <==> p.kind is Select
            &&& g.group_type@ == "url-test"@ <==> p.kind is UrlTest
            &&& g.group_type@ == "fallback"@ <==> p.kind is Fallback
            &&& g.group_type@ == "load-balance"@ <==> p.kind is LoadBalance
            &&& g.group_type@ == "relay"@ <==> p.kind is Relay
            &&& p.kind matches GroupKind::Select { persistent } ==> persistent == store
            &&& p.kind matches GroupKind::UrlTest { tolerance } ==> (g.tolerance matches Some(n)
                ==> tolerance == n) && (g.tolerance is None ==> tolerance == 150)
            &&& text::views(p.members@) == group::members_of(*g, text::views(existing@))
        },
        r is Ok && strict ==> all_listed_known(*g, text::views(existing@)),
        !strict && group::members_of(*g, text::views(existing@)).len() > 0 && (g.group_type@
            == "select"@ || g.group_type@ == "url-test"@ || g.group_type@ == "fallback"@)
            ==> r is Ok,
        group::members_of(*g, text::views(existing@)).len() > 0 && all_listed_known(
            *g,
            text::views(existing@),
        ) && (g.group_type@ == "select"@ || g.group_type@ == "url-test"@ || g.group_type@
            == "fallback"@) ==> r is Ok,
{
    let e = text::views(existing@);
    let s = text::views(providers@);
    member_laws::law_when_a_group_is_refused(*g, e, strict, s);
    reveal_strlit("load-balance");
    reveal_strlit("relay");
    reveal_strlit("select");
    reveal_strlit("url-test");
    reveal_strlit("fallback");
    assert("select"@.len() == 6 && "url-test"@.len() == 8 && "fallback"@.len() == 8
        && "load-balance"@.len() == 12 && "relay"@.len() == 5);
    if let Ok(p) = r {
        member_laws::law_types_name_kinds(p, *g, e, strict, s, store);
    }
}

/// The four ways to read a group: strictly or not, and with a store or without.
pub proof fn law_four_ways_to_read_a_group(
    g: &RawProxyGroup,
    existing: &Vec<String>,
    providers: &Vec<String>,
    store: bool,
    plain: Result<GroupPlan, String>,
    stored: Result<GroupPlan, String>,
    lenient: Result<GroupPlan, String>,
    both: Result<GroupPlan, String>,
)
    requires
        call_ensures(group::parse_proxy_group, (g, existing, providers), plain),
        call_ensures(group::parse_proxy_group_with_store, (g, existing, providers, store), stored),
        call_ensures(group::parse_proxy_group_lenient, (g, existing, providers), lenient),
        call_ensures(
            group::parse_proxy_group_lenient_with_store,
            (g, existing, providers, store),
            both,
        ),
    ensures
        plain is Ok <==> stored is Ok,
        lenient is Ok <==> both is Ok,
        plain is Ok <==> lenient is Ok && all_listed_known(*g, text::views(existing@)),
        plain matches Ok(p) ==> (p.kind matches GroupKind::Select { persistent } ==> !persistent),
        lenient matches Ok(p) ==> (p.kind matches GroupKind::Select { persistent } ==> !persistent),
        stored matches Ok(p) ==> (p.kind matches GroupKind::Select { persistent } ==> persistent
            == store),
        both matches Ok(p) ==> (p.kind matches GroupKind::Select { persistent } ==> persistent
            == store),
        plain matches Ok(p) ==> (g.group_type@ == "select"@ <==> p.kind is Select),
        both matches Ok(p) ==> (g.group_type@ == "select"@ <==> p.kind is Select),
        plain matches Ok(p) ==> text::views(p.members@) == group::members_of(
            *g,
            text::views(existing@),
        ),
        both matches Ok(p) ==> text::views(p.members@) == group::members_of(
            *g,
            text::views(existing@),
        ),
{
    let e = text::views(existing@);
    let s = text::views(providers@);
    member_laws::law_when_a_group_is_refused(*g, e, true, s);
    member_laws::law_when_a_group_is_refused(*g, e, false, s);
    if let Ok(p) = plain {
        member_laws::law_types_name_kinds(p, *g, e, true, s, false);
    }
    if let Ok(p) = stored {
        member_laws::law_types_name_kinds(p, *g, e, true, s, store);
    }
    if let Ok(p) = lenient {
        member_laws::law_types_name_kinds(p, *g, e, false, s, false);
    }
    if let Ok(p) = both {
        member_laws::law_types_name_kinds(p, *g, e, false, s, store);
    }
}

/// The rules in some bytes. What is compiled is taken as it is, where it could be read as
/// a set. Plain text always gives its lines, and what is not plain text is never read as
/// such.
pub proof fn law_bytes_are_read_in_their_format(
    bytes: Vec<u8>,
    compiled: bool,
    as_set: Result<(), String>,
    format: Option<RuleSetFormat>,
    r: Result<RuleEntries, String>,
)
    requires
        call_ensures(
            rule_provider::parse_bytes_to_ruleset_with_format,
            (bytes, compiled, as_set, format),
            r,
        ),
    ensures
        compiled || format == Some(RuleSetFormat::Mrs) ==> (r is Ok <==> as_set is Ok) && (
        r matches Ok(x) ==> x@ == EntriesView::Compiled(bytes@)),
        !compiled && format != Some(RuleSetFormat::Mrs) && r is Ok ==> valid_utf8(bytes@)
            && r->Ok_0@ is Lines,
        !compiled && format == Some(RuleSetFormat::Text) ==> (r is Ok <==> valid_utf8(bytes@)) && (
        r matches Ok(x) ==> x@ == EntriesView::Lines(
            geo::live_lines(text::line_list(decode_utf8(bytes@))),
        )),
        !compiled && valid_utf8(bytes@) && (format is None || format == Some(RuleSetFormat::Yaml))
            ==> (r is Ok <==> rule_provider::yaml_rules(
            rule_provider::yaml_items(decode_utf8(bytes@), "payload"@),
        ) is Ok) && (r matches Ok(x) ==> x@ == EntriesView::Lines(
            rule_provider::yaml_rules(
                rule_provider::yaml_items(decode_utf8(bytes@), "payload"@),
            )->Ok_0,
        )),
{
}

/// A table of sockets is searched line by line behind its heading: what is told stands in
/// the first line of the socket.
pub proof fn law_tables_are_searched_line_by_line(
    table: &str,
    target: SocketAddr,
    v6: bool,
    r: Option<(u64, u32)>,
    i: int,
)
    requires
        call_ensures(process::scan_proc_net, (table, target, v6), r),
        1 <= i < text::line_list(table@).len(),
        forall|j: int|
            1 <= j < i ==> process::line_says(#[trigger] text::line_list(table@)[j], target, v6) is Other,
    ensures
        process::line_says(text::line_list(table@)[i], target, v6) matches process::LineView::Found(
            inode,
            uid,
        ) ==> r == Some((inode, uid)),
        process::line_says(text::line_list(table@)[i], target, v6) is Broken ==> r is None,
{
    let lines = text::line_list(table@);
    assert forall|j: int| 1 <= j < i implies crate::common::process_laws::passed_over(
        #[trigger] lines[j],
        target,
        v6,
    ) by {}
    crate::common::process_laws::law_the_first_line_of_the_socket_is_found(lines, i, target, v6);
}

/// A rebuild without more being said asks no resolver, knows no sources and keeps no
/// choices; otherwise what is said holds. Whichever way, the same configuration gives the
/// same registry.
pub proof fn law_ways_to_rebuild(
    raw: &RawConfig,
    resolver: bool,
    providers: &Vec<String>,
    store: bool,
    outside: &Outside,
    plain: Result<RebuildResult, RebuildError>,
    resolving: Result<RebuildResult, RebuildError>,
    running: Result<RebuildResult, RebuildError>,
)
    requires
        call_ensures(proxy_registry::rebuild_from_raw, (raw, outside), plain),
        call_ensures(
            proxy_registry::rebuild_from_raw_with_resolver,
            (raw, resolver, outside),
            resolving,
        ),
        call_ensures(
            proxy_registry::rebuild_from_raw_runtime,
            (raw, resolver, providers, store, outside),
            running,
        ),
    ensures
        plain is Ok <==> resolving is Ok,
        plain is Ok <==> running is Ok,
        plain matches Ok(x) ==> x.registry@ == proxy_registry::registry_of(
            *raw,
            outside.failed@,
            false,
            Seq::empty(),
            false,
        ).reg,
        resolving matches Ok(x) ==> x.registry@ == proxy_registry::registry_of(
            *raw,
            outside.failed@,
            resolver,
            Seq::empty(),
            false,
        ).reg,
        running matches Ok(x) ==> x.registry@ == proxy_registry::registry_of(
            *raw,
            outside.failed@,
            resolver,
            text::views(providers@),
            store,
        ).reg,
        !resolver ==> (plain matches Ok(x) ==> resolving->Ok_0.registry@ == x.registry@),
        !resolver && !store && providers@.len() == 0 ==> (plain matches Ok(x)
            ==> running->Ok_0.registry@ == x.registry@),
{
    if providers@.len() == 0 {
        assert(text::views(providers@) =~= Seq::empty());
    }
}

/// The steps of a registry: what is built in, the proxies, the groups, the group of
/// everything, and then who is dialed through whom.
pub proof fn law_a_registry_is_made_in_steps(
    raw: RawConfig,
    failed: Seq<usize>,
    resolver: bool,
    providers: Seq<Seq<char>>,
    store: bool,
)
    ensures
        ({
            let empty = RawConfig { proxies: None, proxy_groups: None, ..raw };
            let reg = proxy_registry::registry_of(empty, failed, resolver, providers, store);
            &&& reg.waiting.len() == 0
            &&& reg.reg == proxy_registry::with_global(
                proxy_registry::builtins(raw.routing_mark, resolver),
                store,
            )
        }),
        raw.proxies matches Some(p) ==> proxy_registry::registry_of(
            raw,
            failed,
            resolver,
            providers,
            store,
        ) == proxy_registry::with_dialers(
            proxy_registry::undialed(raw, failed, resolver, providers, store),
            p@,
        ),
{
    let empty = RawConfig { proxies: None, proxy_groups: None, ..raw };
    let b = proxy_registry::builtins(raw.routing_mark, resolver);
    assert(proxy_registry::proxies_in(empty) =~= Seq::empty());
    assert(proxy_registry::groups_in(empty) =~= Seq::empty());
    let left = Seq::new(0, |i: int| i);
    assert(left =~= Seq::<int>::empty());
    assert(proxy_registry::with_leaves(b, Seq::empty(), failed, 0) == b);
    assert(proxy_registry::with_groups(b, Seq::empty(), Seq::empty(), providers, store) == b);
    assert(proxy_registry::undialed(empty, failed, resolver, providers, store)
        == proxy_registry::with_global(b, store));
    assert(proxy_registry::dialer_edges(Seq::empty(), 0) =~= Seq::empty());
}

/// The proxy that is named first is the one under the name of the first section.
pub proof fn law_which_proxy_is_named_first(raw: RawConfig, names: proxy_registry::Names)
    ensures
        raw.proxies is None ==> proxy_registry::first_named(raw, names) is None,
        raw.proxies matches Some(p) ==> p@.len() == 0 ==> proxy_registry::first_named(raw, names)
            is None,
        raw.proxies matches Some(p) ==> p@.len() > 0 ==> (match yaml::str_option(
            p@[0]@,
            "name"@,
        ) {
            Some(n) => proxy_registry::first_named(raw, names) == proxy_registry::lookup(names, n),
            None => proxy_registry::first_named(raw, names) is None,
        }),
{
}

proof fn lemma_port(n: nat)
    ensures
        n <= 65535 ==> raw::port_text(number::decimal(n)) == Some(n),
        n > 65535 ==> raw::port_text(number::decimal(n)) is None,
{
    number::lemma_decimal(n);
    let d = number::decimal(n);
    let (lo, hi) = text_laws::law_trimming_takes_white_space_off_the_ends(d);
    assert(number::is_digit(d[0]) && number::is_digit(d[d.len() - 1]));
    text_laws::law_trimmed_texts_stay(d);
    text_laws::law_only_digits_are_numbers(d, n, 65535);
}

/// A number is a port where it is at most 65535. A text is a port, or two with a dash
/// between them: then every port from the first to the second, with both.
pub proof fn law_items_are_ports(n: u64, a: u16, b: u16, one: String, two: String, i: int)
    requires
        one@ == number::decimal(n as nat),
        two@ == number::decimal(a as nat).push('-') + number::decimal(b as nat),
    ensures
        n <= 65535 ==> raw::item_ports(Yaml::Number(YamlNumber::Unsigned(n))) == Ok::<
            Seq<u16>,
            PortErrorView,
        >(seq![n as u16]),
        n > 65535 ==> raw::item_ports(Yaml::Number(YamlNumber::Unsigned(n))) is Err,
        n <= 65535 ==> raw::item_ports(Yaml::Text(one)) == Ok::<Seq<u16>, PortErrorView>(
            seq![n as u16],
        ),
        n > 65535 ==> raw::item_ports(Yaml::Text(one)) is Err,
        a <= b ==> (raw::item_ports(Yaml::Text(two)) matches Ok(p) && p.len() == b - a + 1 && (0
            <= i < p.len() ==> p[i] == a + i)),
        a > b ==> raw::item_ports(Yaml::Text(two)) == Err::<Seq<u16>, PortErrorView>(
            PortErrorView::InvalidRange(a, b),
        ),
        raw::item_ports(Yaml::Null) is Err,
        raw::item_ports(Yaml::Bool(true)) is Err,
{
    lemma_port(n as nat);
    lemma_port(a as nat);
    lemma_port(b as nat);
    let (x, y, z) = (
        number::decimal(n as nat),
        number::decimal(a as nat),
        number::decimal(b as nat),
    );
    number::lemma_decimal(n as nat);
    number::lemma_decimal(a as nat);
    text_laws::law_the_first_place_is_found(one@, '-');
    if let Some(k) = text::find(one@, '-') {
        assert(number::is_digit(x[k]));
    }
    text_laws::law_the_first_place_is_found(two@, '-');
    let m = y.len() as int;
    assert(two@[m] == '-');
    if text::find(two@, '-') is None {
        assert(two@.contains(two@[m]));
    }
    let k = text::find(two@, '-')->0;
    if k < m {
        assert(number::is_digit(y[k]));
        assert(two@[k] == y[k]);
    }
    if k > m {
        assert(two@.take(k)[m] == '-');
        assert(two@.take(k).contains('-'));
    }
    assert(two@.take(m) =~= y);
    assert(two@.skip(m + 1) =~= z);
}

/// The ports of a list are those of its items, one after another; a bad item spoils the
/// list.
pub proof fn law_lists_of_ports(items: Seq<Yaml>, x: Yaml)
    ensures
        raw::list_ports(Seq::empty()) == Ok::<Seq<u16>, PortErrorView>(Seq::empty()),
        raw::list_ports(items) matches Ok(p) ==> (raw::item_ports(x) matches Ok(q)
            ==> raw::list_ports(items.push(x)) == Ok::<Seq<u16>, PortErrorView>(p + q)),
        raw::list_ports(items) is Err ==> raw::list_ports(items.push(x)) == raw::list_ports(items),
        raw::list_ports(items) is Ok && raw::item_ports(x) is Err ==> (raw::list_ports(
            items.push(x),
        ) matches Err(e) && e == raw::item_ports(x)->Err_0),
{
    assert(items.push(x).drop_last() =~= items);
}

/// What is no list has no ports, and nothing is no list of ports at all.
pub proof fn law_what_is_a_list_of_ports(y: &Yaml, r: Result<Option<Vec<u16>>, PortListError>)
    requires
        call_ensures(raw::parse_port_list, (y,), r),
    ensures
        *y is Null ==> (r matches Ok(o) && o is None),
        *y matches Yaml::Sequence(items) ==> (r is Ok <==> raw::list_ports(items@) is Ok) && (
        r matches Ok(o) ==> (o matches Some(v) && raw::list_ports(items@) == Ok::<
            Seq<u16>,
            PortErrorView,
        >(v@))),
        !(*y is Null) && !(*y is Sequence) ==> (r matches Err(e) && e is NotAList),
{
}

/// One text stands for a list of one, and a list for its texts; a list of anything else
/// is refused.
pub proof fn law_one_text_or_a_list(y: &Yaml, r: Result<Option<Vec<String>>, ()>)
    requires
        call_ensures(raw::parse_string_or_seq, (y,), r),
    ensures
        *y is Null ==> (r matches Ok(o) && o is None),
        *y matches Yaml::Text(s) ==> (r matches Ok(o) && (o matches Some(v) && v@.len() == 1
            && v@[0]@ == s@)),
        *y matches Yaml::Sequence(items) ==> (r is Ok <==> forall|i: int|
            0 <= i < items@.len() ==> (#[trigger] items@[i]) is Text),
        *y is Bool || *y is Number || *y is Mapping ==> r is Err,
{
    if let Yaml::Text(s) = *y {
        if let Ok(o) = r {
            if let Some(v) = o {
                assert(text::views(v@).len() == 1);
                assert(text::views(v@)[0] == v@[0]@);
            }
        }
    }
}

} // verus!
