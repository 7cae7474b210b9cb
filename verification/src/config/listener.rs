//! The listeners of a configuration.

use crate::config::raw::{RawConfig, RawListener};
use crate::number;
use crate::text;
use vstd::prelude::*;
use vstd::string::*;

verus! {

/// The protocol of a listener.
#[derive(Clone, Copy, Debug, PartialEq, Eq, Structural)]
pub enum ListenerType {
    Mixed,
    Http,
    Socks5,
    TProxy,
}

/// The name of a protocol.
pub open spec fn protocol_name(t: ListenerType) -> Seq<char> {
    match t {
        ListenerType::Mixed => "mixed"@,
        ListenerType::Http => "http"@,
        ListenerType::Socks5 => "socks5"@,
        ListenerType::TProxy => "tproxy"@,
    }
}

impl ListenerType {
    /// The name of a protocol.
    pub fn name(&self) -> (s: String)
        ensures
            s@ == protocol_name(*self),
    {
        match self {
            ListenerType::Mixed => "mixed".to_owned(),
            ListenerType::Http => "http".to_owned(),
            ListenerType::Socks5 => "socks5".to_owned(),
            ListenerType::TProxy => "tproxy".to_owned(),
        }
    }
}

/// A listener that is ready to be started.
#[derive(Clone, Debug)]
pub struct NamedListener {
    pub name: String,
    pub listener_type: ListenerType,
    pub port: u16,
    pub listen: String,
    pub tproxy_sni: bool,
    /// How many connections are carried at a time; zero means any number.
    pub max_connections: usize,
}

/// A [`NamedListener`] with its texts as sequences.
pub struct ListenerView {
    pub name: Seq<char>,
    pub listener_type: ListenerType,
    pub port: u16,
    pub listen: Seq<char>,
    pub tproxy_sni: bool,
    pub max_connections: usize,
}

impl View for NamedListener {
    type V = ListenerView;

    open spec fn view(&self) -> ListenerView {
        ListenerView {
            name: self.name@,
            listener_type: self.listener_type,
            port: self.port,
            listen: self.listen@,
            tproxy_sni: self.tproxy_sni,
            max_connections: self.max_connections,
        }
    }
}

/// Listeners as mathematical values.
pub open spec fn listener_views(v: Seq<NamedListener>) -> Seq<ListenerView> {
    v.map_values(|l: NamedListener| l@)
}

/// All that the program listens on.
#[derive(Clone, Debug)]
pub struct ListenerConfig {
    pub mixed_port: Option<u16>,
    pub socks_port: Option<u16>,
    pub http_port: Option<u16>,
    pub bind_address: String,
    pub tproxy_port: Option<u16>,
    pub tproxy_sni: bool,
    pub routing_mark: Option<u32>,
    /// Every listener, with no port and no name twice.
    pub named: Vec<NamedListener>,
}

/// Why the listeners of a configuration cannot be used.
#[derive(Clone, Debug)]
pub enum ListenerError {
    UnknownType(String),
    /// A port that another listener has.
    DuplicatePort { port: u16, owner: String },
    DuplicateName(String),
}

/// A [`ListenerError`] with its texts as sequences.
pub enum ListenerErrorView {
    UnknownType(Seq<char>),
    DuplicatePort { port: u16, owner: Seq<char> },
    DuplicateName(Seq<char>),
}

impl View for ListenerError {
    type V = ListenerErrorView;

    open spec fn view(&self) -> ListenerErrorView {
        match self {
            ListenerError::UnknownType(s) => ListenerErrorView::UnknownType(s@),
            ListenerError::DuplicatePort { port, owner } => ListenerErrorView::DuplicatePort {
                port: *port,
                owner: owner@,
            },
            ListenerError::DuplicateName(s) => ListenerErrorView::DuplicateName(s@),
        }
    }
}

/// How an error is told.
pub open spec fn listener_message(e: ListenerErrorView) -> Seq<char> {
    match e {
        ListenerErrorView::UnknownType(s) => "unknown listener type '"@ + s
            + "'; expected mixed, http, socks5, or tproxy"@,
        ListenerErrorView::DuplicatePort { port, owner } => "port "@ + number::decimal(port as nat)
            + " already used by listener '"@ + owner + "' (duplicate port, Class A per ADR-0002)"@,
        ListenerErrorView::DuplicateName(s) => "listener name '"@ + s
            + "' already defined (duplicate name, Class A per ADR-0002)"@,
    }
}

impl ListenerError {
    /// How the error is told.
    pub fn message(&self) -> (s: String)
        ensures
            s@ == listener_message(self@),
    {
        match self {
            ListenerError::UnknownType(s) => "unknown listener type '".to_owned().concat(
                s.as_str(),
            ).concat("'; expected mixed, http, socks5, or tproxy"),
            ListenerError::DuplicatePort { port, owner } => {
                let n = number::to_decimal(*port as u64);
                "port ".to_owned().concat(n.as_str()).concat(
                    " already used by listener '",
                ).concat(owner.as_str()).concat("' (duplicate port, Class A per ADR-0002)")
            },
            ListenerError::DuplicateName(s) => "listener name '".to_owned().concat(
                s.as_str(),
            ).concat("' already defined (duplicate name, Class A per ADR-0002)"),
        }
    }
}

/// The protocol that a text names, in letters of any case.
pub open spec fn listener_type(s: Seq<char>) -> Option<ListenerType> {
    named_type(text::unicode_lower(s))
}

/// The protocol that a lowercase text names.
pub open spec fn named_type(l: Seq<char>) -> Option<ListenerType> {
    if l == "mixed"@ {
        Some(ListenerType::Mixed)
    } else if l == "http"@ {
        Some(ListenerType::Http)
    } else if l == "socks5"@ {
        Some(ListenerType::Socks5)
    } else if l == "tproxy"@ {
        Some(ListenerType::TProxy)
    } else {
        None
    }
}

/// Finds the protocol that a lowercase text names.
pub fn find_type(lower: &str) -> (r: Option<ListenerType>)
    ensures
        r == named_type(lower@),
{
    if text::same(lower, "mixed") {
        Some(ListenerType::Mixed)
    } else if text::same(lower, "http") {
        Some(ListenerType::Http)
    } else if text::same(lower, "socks5") {
        Some(ListenerType::Socks5)
    } else if text::same(lower, "tproxy") {
        Some(ListenerType::TProxy)
    } else {
        None
    }
}

/// Reads the protocol of a listener.
pub fn parse_listener_type(s: &str) -> (r: Result<ListenerType, ListenerError>)
    ensures
        (match r {
            Ok(t) => listener_type(s@) == Some(t),
            Err(e) => listener_type(s@) is None && e@ == ListenerErrorView::UnknownType(
                text::unicode_lower(s@),
            ),
        }),
{
    let lower = text::lowercase(s);
    match find_type(lower.as_str()) {
        Some(t) => Ok(t),
        None => Err(ListenerError::UnknownType(lower)),
    }
}

/// The name of the listener that has a port.
pub open spec fn port_owner(list: Seq<ListenerView>, port: u16) -> Option<Seq<char>>
    decreases list.len(),
{
    if list.len() == 0 {
        None
    } else if list.last().port == port {
        Some(list.last().name)
    } else {
        port_owner(list.drop_last(), port)
    }
}

/// Whether a listener has a name.
pub open spec fn name_taken(list: Seq<ListenerView>, name: Seq<char>) -> bool {
    exists|i: int| 0 <= i < list.len() && (#[trigger] list[i]).name == name
}

/// What comes of a list of listeners.
pub type Listed = Result<Seq<ListenerView>, ListenerErrorView>;

/// One listener more: its port and its name must be free.
pub open spec fn accept(list: Seq<ListenerView>, l: ListenerView) -> Listed {
    match port_owner(list, l.port) {
        Some(owner) => Err(ListenerErrorView::DuplicatePort { port: l.port, owner }),
        None => if name_taken(list, l.name) {
            Err(ListenerErrorView::DuplicateName(l.name))
        } else {
            Ok(list.push(l))
        },
    }
}

/// One listener more, if there is one.
pub open spec fn accept_opt(list: Listed, l: Option<ListenerView>) -> Listed {
    match (list, l) {
        (Ok(v), Some(l)) => accept(v, l),
        _ => list,
    }
}

/// A listener that a port of its own asks for.
pub open spec fn shorthand(
    name: Seq<char>,
    t: ListenerType,
    port: Option<u16>,
    listen: Seq<char>,
    sni: bool,
    max: usize,
) -> Option<ListenerView> {
    match port {
        Some(port) => Some(
            ListenerView {
                name,
                listener_type: t,
                port,
                listen,
                tproxy_sni: sni,
                max_connections: max,
            },
        ),
        None => None,
    }
}

/// How many connections a listener carries where nothing else is said.
pub open spec fn max_connections(raw: RawConfig) -> usize {
    match raw.max_connections {
        Some(n) => n,
        None => 256,
    }
}

/// The listeners that ports of their own ask for.
pub open spec fn shorthands(raw: RawConfig, bind: Seq<char>, sni: bool) -> Listed {
    let max = max_connections(raw);
    let a = accept_opt(
        Ok(Seq::empty()),
        shorthand("mixed"@, ListenerType::Mixed, raw.mixed_port, bind, false, max),
    );
    let b = accept_opt(
        a,
        shorthand("socks"@, ListenerType::Socks5, raw.socks_port, bind, false, max),
    );
    let c = accept_opt(b, shorthand("http"@, ListenerType::Http, raw.port, bind, false, max));
    accept_opt(
        c,
        shorthand("tproxy"@, ListenerType::TProxy, raw.tproxy_port, "127.0.0.1"@, sni, max),
    )
}

/// A listener with a name of its own, with what it leaves open filled in. A
/// transparent one listens on this host alone.
pub open spec fn filled(
    r: RawListener,
    t: ListenerType,
    bind: Seq<char>,
    sni: bool,
    max: usize,
) -> ListenerView {
    ListenerView {
        name: r.name@,
        listener_type: t,
        port: r.port,
        listen: match r.listen {
            Some(s) => s@,
            None => if t == ListenerType::TProxy {
                "127.0.0.1"@
            } else {
                bind
            },
        },
        tproxy_sni: match r.tproxy_sni {
            Some(b) => b,
            None => sni,
        },
        max_connections: match r.max_connections {
            Some(n) => n,
            None => max,
        },
    }
}

/// The listeners with those that have names of their own.
pub open spec fn with_named(
    list: Listed,
    named: Seq<RawListener>,
    bind: Seq<char>,
    sni: bool,
    max: usize,
) -> Listed
    decreases named.len(),
{
    if named.len() == 0 {
        list
    } else {
        match with_named(list, named.drop_last(), bind, sni, max) {
            Err(e) => Err(e),
            Ok(v) => {
                let r = named.last();
                match listener_type(r.listener_type@) {
                    Some(t) => accept(v, filled(r, t, bind, sni, max)),
                    None => Err(
                        ListenerErrorView::UnknownType(text::unicode_lower(r.listener_type@)),
                    ),
                }
            },
        }
    }
}

/// The listeners with names of their own.
pub open spec fn named_in(raw: RawConfig) -> Seq<RawListener> {
    match raw.listeners {
        Some(v) => v@,
        None => Seq::empty(),
    }
}

/// The listeners of a configuration.
pub open spec fn listeners_of(raw: RawConfig, bind: Seq<char>, sni: bool) -> Listed {
    with_named(
        shorthands(raw, bind, sni),
        named_in(raw),
        bind,
        sni,
        max_connections(raw),
    )
}

/// Whether a result is what the listeners come to.
pub open spec fn listed_as(r: Result<Vec<NamedListener>, ListenerError>, l: Listed) -> bool {
    match (r, l) {
        (Ok(v), Ok(list)) => listener_views(v@) == list,
        (Err(e), Err(f)) => e@ == f,
        _ => false,
    }
}

fn find_owner<'a>(list: &'a Vec<NamedListener>, port: u16) -> (r: Option<&'a str>)
    ensures
        (match r {
            Some(s) => port_owner(listener_views(list@), port) == Some(s@),
            None => port_owner(listener_views(list@), port) is None,
        }),
{
    let ghost all = listener_views(list@);
    let mut i: usize = list.len();
    assert(all.take(i as int) =~= all);
    while i > 0
        invariant
            i <= list@.len(),
            all == listener_views(list@),
            port_owner(all, port) == port_owner(all.take(i as int), port),
        decreases i,
    {
        i -= 1;
        assert(all.take(i + 1).drop_last() =~= all.take(i as int));
        assert(all.take(i + 1).last() == list@[i as int]@);
        if list[i].port == port {
            return Some(list[i].name.as_str());
        }
    }
    None
}

fn has_name(list: &Vec<NamedListener>, name: &str) -> (r: bool)
    ensures
        r == name_taken(listener_views(list@), name@),
{
    let ghost all = listener_views(list@);
    let mut i: usize = 0;
    while i < list.len()
        invariant
            i <= list@.len(),
            all == listener_views(list@),
            forall|k: int| 0 <= k < i ==> (#[trigger] all[k]).name != name@,
        decreases list@.len() - i,
    {
        assert(all[i as int].name == list@[i as int].name@);
        if text::same(list[i].name.as_str(), name) {
            return true;
        }
        i += 1;
    }
    false
}

fn place(list: Vec<NamedListener>, l: NamedListener) -> (r: Result<Vec<NamedListener>, ListenerError>)
    ensures
        listed_as(r, accept(listener_views(list@), l@)),
{
    if let Some(owner) = find_owner(&list, l.port) {
        return Err(ListenerError::DuplicatePort { port: l.port, owner: owner.to_owned() });
    }
    if has_name(&list, l.name.as_str()) {
        return Err(ListenerError::DuplicateName(l.name));
    }
    let mut out = list;
    out.push(l);
    assert(listener_views(out@) =~= listener_views(list@).push(l@));
    Ok(out)
}

fn add_shorthand(
    list: Vec<NamedListener>,
    name: &str,
    t: ListenerType,
    port: Option<u16>,
    listen: &str,
    sni: bool,
    max: usize,
) -> (r: Result<Vec<NamedListener>, ListenerError>)
    ensures
        listed_as(
            r,
            accept_opt(
                Ok(listener_views(list@)),
                shorthand(name@, t, port, listen@, sni, max),
            ),
        ),
{
    match port {
        Some(port) => place(
            list,
            NamedListener {
                name: name.to_owned(),
                listener_type: t,
                port,
                listen: listen.to_owned(),
                tproxy_sni: sni,
                max_connections: max,
            },
        ),
        None => Ok(list),
    }
}

fn fill(r: &RawListener, t: ListenerType, bind: &str, sni: bool, max: usize) -> (l: NamedListener)
    ensures
        l@ == filled(*r, t, bind@, sni, max),
{
    let listen = match &r.listen {
        Some(s) => s.clone(),
        None => if t == ListenerType::TProxy {
            "127.0.0.1".to_owned()
        } else {
            bind.to_owned()
        },
    };
    let tproxy_sni = match r.tproxy_sni {
        Some(b) => b,
        None => sni,
    };
    let max_connections: usize = match r.max_connections {
        Some(n) => n,
        None => max,
    };
    NamedListener {
        name: r.name.clone(),
        listener_type: t,
        port: r.port,
        listen,
        tproxy_sni,
        max_connections,
    }
}

/// No port and no name stands twice.
pub open spec fn all_distinct(list: Seq<ListenerView>) -> bool {
    forall|i: int, j: int|
        0 <= i < j < list.len() ==> (#[trigger] list[i]).port != (#[trigger] list[j]).port
            && list[i].name != list[j].name
}

proof fn lemma_port_owner(list: Seq<ListenerView>, port: u16)
    requires
        port_owner(list, port) is None,
    ensures
        forall|i: int| 0 <= i < list.len() ==> (#[trigger] list[i]).port != port,
    decreases list.len(),
{
    if list.len() > 0 {
        lemma_port_owner(list.drop_last(), port);
        assert forall|i: int| 0 <= i < list.len() implies (#[trigger] list[i]).port != port by {
            if i < list.len() - 1 {
                assert(list.drop_last()[i] == list[i]);
            }
        }
    }
}

proof fn lemma_accept_distinct(list: Listed, l: Option<ListenerView>)
    requires
        list matches Ok(v) ==> all_distinct(v),
    ensures
        accept_opt(list, l) matches Ok(v) ==> all_distinct(v),
{
    if let (Ok(v), Some(l)) = (list, l) {
        if let Ok(w) = accept(v, l) {
            lemma_port_owner(v, l.port);
            assert forall|i: int, j: int| 0 <= i < j < w.len() implies (#[trigger] w[i]).port != (
            #[trigger] w[j]).port && w[i].name != w[j].name by {
                if j < v.len() {
                    assert(w[i] == v[i] && w[j] == v[j]);
                } else {
                    assert(w[i] == v[i]);
                }
            }
        }
    }
}

proof fn lemma_named_distinct(
    list: Listed,
    named: Seq<RawListener>,
    bind: Seq<char>,
    sni: bool,
    max: usize,
)
    requires
        list matches Ok(v) ==> all_distinct(v),
    ensures
        with_named(list, named, bind, sni, max) matches Ok(v) ==> all_distinct(v),
    decreases named.len(),
{
    if named.len() > 0 {
        lemma_named_distinct(list, named.drop_last(), bind, sni, max);
        let before = with_named(list, named.drop_last(), bind, sni, max);
        let r = named.last();
        if let Some(t) = listener_type(r.listener_type@) {
            lemma_accept_distinct(before, Some(filled(r, t, bind, sni, max)));
        }
    }
}

/// No two listeners share a port or a name.
pub proof fn law_listeners_are_distinct(raw: RawConfig, bind: Seq<char>, sni: bool)
    ensures
        listeners_of(raw, bind, sni) matches Ok(v) ==> all_distinct(v),
{
    let max = max_connections(raw);
    let start: Listed = Ok(Seq::empty());
    let m = shorthand("mixed"@, ListenerType::Mixed, raw.mixed_port, bind, false, max);
    lemma_accept_distinct(start, m);
    let a = accept_opt(start, m);
    let s = shorthand("socks"@, ListenerType::Socks5, raw.socks_port, bind, false, max);
    lemma_accept_distinct(a, s);
    let b = accept_opt(a, s);
    let h = shorthand("http"@, ListenerType::Http, raw.port, bind, false, max);
    lemma_accept_distinct(b, h);
    let c = accept_opt(b, h);
    lemma_accept_distinct(
        c,
        shorthand("tproxy"@, ListenerType::TProxy, raw.tproxy_port, "127.0.0.1"@, sni, max),
    );
    lemma_named_distinct(shorthands(raw, bind, sni), named_in(raw), bind, sni, max);
}

fn build_shorthands(raw: &RawConfig, bind: &str, sni: bool, max: usize) -> (r: Result<
    Vec<NamedListener>,
    ListenerError,
>)
    requires
        max == max_connections(*raw),
    ensures
        listed_as(r, shorthands(*raw, bind@, sni)),
{
    let none: Vec<NamedListener> = Vec::new();
    assert(listener_views(none@) =~= Seq::empty());
    let a = match add_shorthand(
        none,
        "mixed",
        ListenerType::Mixed,
        raw.mixed_port,
        bind,
        false,
        max,
    ) {
        Ok(v) => v,
        Err(e) => return Err(e),
    };
    let b = match add_shorthand(
        a,
        "socks",
        ListenerType::Socks5,
        raw.socks_port,
        bind,
        false,
        max,
    ) {
        Ok(v) => v,
        Err(e) => return Err(e),
    };
    let c = match add_shorthand(b, "http", ListenerType::Http, raw.port, bind, false, max) {
        Ok(v) => v,
        Err(e) => return Err(e),
    };
    add_shorthand(c, "tproxy", ListenerType::TProxy, raw.tproxy_port, "127.0.0.1", sni, max)
}

proof fn lemma_named_err(
    list: Listed,
    named: Seq<RawListener>,
    n: int,
    bind: Seq<char>,
    sni: bool,
    max: usize,
)
    requires
        0 <= n <= named.len(),
        with_named(list, named.take(n), bind, sni, max) is Err,
    ensures
        with_named(list, named, bind, sni, max) == with_named(
            list,
            named.take(n),
            bind,
            sni,
            max,
        ),
    decreases named.len(),
{
    if n == named.len() {
        assert(named.take(n) =~= named);
    } else {
        assert(named.drop_last().take(n) =~= named.take(n));
        lemma_named_err(list, named.drop_last(), n, bind, sni, max);
    }
}

/// The listeners of a configuration: those that ports of their own ask for, then
/// those with names of their own.
pub fn build_named_listeners(raw: &RawConfig, default_bind: &str, global_tproxy_sni: bool) -> (r:
    Result<Vec<NamedListener>, ListenerError>)
    ensures
        listed_as(r, listeners_of(*raw, default_bind@, global_tproxy_sni)),
        r matches Ok(v) ==> all_distinct(listener_views(v@)),
{
    proof {
        law_listeners_are_distinct(*raw, default_bind@, global_tproxy_sni);
    }
    let max: usize = match raw.max_connections {
        Some(n) => n,
        None => 256,
    };
    let ghost start = shorthands(*raw, default_bind@, global_tproxy_sni);
    let mut list = match build_shorthands(raw, default_bind, global_tproxy_sni, max) {
        Ok(v) => v,
        Err(e) => {
            proof {
                assert(named_in(*raw).take(0) =~= Seq::empty());
                lemma_named_err(start, named_in(*raw), 0, default_bind@, global_tproxy_sni, max);
            }
            return Err(e);
        },
    };
    if let Some(named) = &raw.listeners {
        assert(named@.take(0) =~= Seq::empty());
        let mut i: usize = 0;
        while i < named.len()
            invariant
                i <= named@.len(),
                named@ == named_in(*raw),
                max == max_connections(*raw),
                start == shorthands(*raw, default_bind@, global_tproxy_sni),
                with_named(start, named@.take(i as int), default_bind@, global_tproxy_sni, max)
                    == Ok::<Seq<ListenerView>, ListenerErrorView>(listener_views(list@)),
            decreases named@.len() - i,
        {
            let r = &named[i];
            assert(named@.take(i + 1).drop_last() =~= named@.take(i as int));
            let t = match parse_listener_type(r.listener_type.as_str()) {
                Ok(t) => t,
                Err(e) => {
                    proof {
                        lemma_named_err(
                            start,
                            named@,
                            i + 1,
                            default_bind@,
                            global_tproxy_sni,
                            max,
                        );
                    }
                    return Err(e);
                },
            };
            let l = fill(r, t, default_bind, global_tproxy_sni, max);
            match place(list, l) {
                Ok(v) => {
                    list = v;
                },
                Err(e) => {
                    proof {
                        lemma_named_err(
                            start,
                            named@,
                            i + 1,
                            default_bind@,
                            global_tproxy_sni,
                            max,
                        );
                    }
                    return Err(e);
                },
            }
            i += 1;
        }
        assert(named@.take(i as int) =~= named@);
    }
    Ok(list)
}

} // verus!
