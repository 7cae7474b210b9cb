//! The registry: every proxy and group under its name.
//!
//! A node never changes once it is made; a name can be bound to another node.
//! So a group keeps the member that its name stood for when it was built.

use crate::config::group;
use crate::config::group::GroupKind;
use crate::config::outbound;
use crate::config::proxy::Opts;
use crate::config::raw::{RawConfig, RawProxyGroup};
use crate::config::yaml;
use crate::config::yaml::Options;
use crate::text;
use vstd::prelude::*;
use vstd::string::*;

verus! {

/// What a name can stand for.
#[derive(Clone, Debug)]
pub enum Node {
    /// The built-in direct connection, with the mark of its packets, and whether
    /// it asks this process for names in place of the system.
    Direct { routing_mark: Option<u32>, resolver: bool },
    /// Refuses connections.
    Reject,
    /// Lets connections hang.
    RejectDrop,
    /// The proxy at this position of the configuration.
    Leaf { proxy: usize },
    /// The group at this position of the configuration, or one that was made
    /// without being configured, with its members.
    Group {
        section: Option<usize>,
        kind: GroupKind,
        members: Vec<usize>,
        providers: Vec<String>,
    },
    /// A proxy that is reached through another.
    Dialed { inner: usize, dialer: usize },
}

/// A [`Node`] with its lists as sequences.
pub enum NodeView {
    Direct { routing_mark: Option<u32>, resolver: bool },
    Reject,
    RejectDrop,
    Leaf { proxy: int },
    Group {
        section: Option<int>,
        kind: GroupKind,
        members: Seq<int>,
        providers: Seq<Seq<char>>,
    },
    Dialed { inner: int, dialer: int },
}

/// Positions as integers.
pub open spec fn ints(v: Seq<usize>) -> Seq<int> {
    v.map_values(|x: usize| x as int)
}

impl View for Node {
    type V = NodeView;

    open spec fn view(&self) -> NodeView {
        match self {
            Node::Direct { routing_mark, resolver } => NodeView::Direct {
                routing_mark: *routing_mark,
                resolver: *resolver,
            },
            Node::Reject => NodeView::Reject,
            Node::RejectDrop => NodeView::RejectDrop,
            Node::Leaf { proxy } => NodeView::Leaf { proxy: *proxy as int },
            Node::Group { section, kind, members, providers } => NodeView::Group {
                section: match section {
                    Some(i) => Some(*i as int),
                    None => None,
                },
                kind: *kind,
                members: ints(members@),
                providers: text::views(providers@),
            },
            Node::Dialed { inner, dialer } => NodeView::Dialed {
                inner: *inner as int,
                dialer: *dialer as int,
            },
        }
    }
}

/// Names with the positions of their nodes.
pub type Names = Seq<(Seq<char>, int)>;

/// A registry as mathematical values.
pub struct RegView {
    pub nodes: Seq<NodeView>,
    pub names: Names,
}

/// Every proxy and group under its name.
pub struct ProxyRegistry {
    nodes: Vec<Node>,
    names: Vec<(String, usize)>,
}

pub open spec fn name_views(v: Seq<(String, usize)>) -> Names {
    v.map_values(|x: (String, usize)| (x.0@, x.1 as int))
}

impl View for ProxyRegistry {
    type V = RegView;

    closed spec fn view(&self) -> RegView {
        RegView { nodes: self.nodes@.map_values(|n: Node| n@), names: name_views(self.names@) }
    }
}

/// What a name stands for.
pub open spec fn lookup(names: Names, n: Seq<char>) -> Option<int>
    decreases names.len(),
{
    if names.len() == 0 {
        None
    } else if names.last().0 == n {
        Some(names.last().1)
    } else {
        lookup(names.drop_last(), n)
    }
}

/// The names, in the order in which they were first bound.
pub open spec fn keys(names: Names) -> Seq<Seq<char>> {
    names.map_values(|x: (Seq<char>, int)| x.0)
}

/// The names with one bound to a node.
pub open spec fn bind(names: Names, n: Seq<char>, id: int) -> Names {
    if keys(names).contains(n) {
        names.map_values(
            |x: (Seq<char>, int)|
                if x.0 == n {
                    (n, id)
                } else {
                    x
                },
        )
    } else {
        names.push((n, id))
    }
}

/// The registry with a new node under a name.
pub open spec fn with_node(r: RegView, n: Seq<char>, node: NodeView) -> RegView {
    RegView { nodes: r.nodes.push(node), names: bind(r.names, n, r.nodes.len() as int) }
}

/// Each name is bound once, to a node that exists.
pub open spec fn reg_ok(r: RegView) -> bool {
    &&& forall|i: int| 0 <= i < r.names.len() ==> 0 <= (#[trigger] r.names[i]).1 < r.nodes.len()
    &&& forall|i: int, j: int|
        0 <= i < j < r.names.len() ==> (#[trigger] r.names[i]).0 != (#[trigger] r.names[j]).0
}

/// The built-in proxies.
pub open spec fn builtins(mark: Option<u32>, resolver: bool) -> RegView {
    with_node(
        with_node(
            with_node(
                RegView { nodes: Seq::empty(), names: Seq::empty() },
                "DIRECT"@,
                NodeView::Direct { routing_mark: mark, resolver },
            ),
            "REJECT"@,
            NodeView::Reject,
        ),
        "REJECT-DROP"@,
        NodeView::RejectDrop,
    )
}

/// Whether the proxy at a position has options that can be used, and is not among those
/// that could not be set up.
pub open spec fn set_up(o: Opts, failed: Seq<usize>, at: int) -> bool {
    outbound::proxy_error(o) is None && !ints(failed).contains(at)
}

/// The registry with the first `n` configured proxies; those with options that
/// cannot be used, and those that could not be set up, are left out.
pub open spec fn with_leaves(
    r: RegView,
    proxies: Seq<Options>,
    failed: Seq<usize>,
    n: nat,
) -> RegView
    decreases n,
{
    if n == 0 {
        r
    } else {
        let before = with_leaves(r, proxies, failed, (n - 1) as nat);
        let o = proxies[n - 1]@;
        if set_up(o, failed, n - 1) {
            with_node(
                before,
                yaml::str_option(o, "name"@)->0,
                NodeView::Leaf { proxy: n - 1 },
            )
        } else {
            before
        }
    }
}

/// The nodes that names stand for.
pub open spec fn ids_of(names: Names, list: Seq<Seq<char>>) -> Seq<int> {
    list.map_values(|n: Seq<char>| lookup(names, n)->0)
}

/// The node of a configured group, with the members as their names stand now.
pub open spec fn group_node(
    r: RegView,
    g: RawProxyGroup,
    section: int,
    providers: Seq<Seq<char>>,
    store: bool,
) -> NodeView {
    let kind = group::group_kind(g, store);
    NodeView::Group {
        section: Some(section),
        kind,
        members: ids_of(r.names, group::members_of(g, keys(r.names))),
        providers: if kind is LoadBalance || kind is Relay {
            Seq::empty()
        } else {
            group::sources_of(g, providers)
        },
    }
}

/// The registry after one attempt at a group.
pub open spec fn try_group(
    r: RegView,
    groups: Seq<RawProxyGroup>,
    i: int,
    strict: bool,
    providers: Seq<Seq<char>>,
    store: bool,
) -> Option<RegView> {
    let g = groups[i];
    if group::group_error(g, keys(r.names), strict, providers) is None {
        Some(with_node(r, g.name@, group_node(r, g, i, providers, store)))
    } else {
        None
    }
}

/// One pass over the groups that are left: those whose members all exist are
/// built, and the others stay.
pub open spec fn group_pass(
    r: RegView,
    groups: Seq<RawProxyGroup>,
    left: Seq<int>,
    strict: bool,
    providers: Seq<Seq<char>>,
    store: bool,
) -> (RegView, Seq<int>)
    decreases left.len(),
{
    if left.len() == 0 {
        (r, Seq::empty())
    } else {
        let (r2, still) = group_pass(r, groups, left.drop_last(), strict, providers, store);
        match try_group(r2, groups, left.last(), strict, providers, store) {
            Some(r3) => (r3, still),
            None => (r2, still.push(left.last())),
        }
    }
}

/// Passes over the groups until none is left, or until a pass builds none: then
/// what is left refers to proxies that do not exist, and is built without them.
pub open spec fn with_groups(
    r: RegView,
    groups: Seq<RawProxyGroup>,
    left: Seq<int>,
    providers: Seq<Seq<char>>,
    store: bool,
) -> RegView
    decreases left.len(),
{
    if left.len() == 0 {
        r
    } else {
        let (r2, still) = group_pass(r, groups, left, true, providers, store);
        if still.len() < left.len() {
            with_groups(r2, groups, still, providers, store)
        } else {
            group_pass(r2, groups, still, false, providers, store).0
        }
    }
}

/// Whether a text comes before another.
pub open spec fn before(a: Seq<char>, b: Seq<char>) -> bool
    decreases a.len(),
{
    if a.len() == 0 {
        b.len() > 0
    } else if b.len() == 0 {
        false
    } else if a[0] != b[0] {
        a[0] < b[0]
    } else {
        before(a.skip(1), b.skip(1))
    }
}

/// An ordered list with one text more.
pub open spec fn inserted(s: Seq<Seq<char>>, t: Seq<char>) -> Seq<Seq<char>>
    decreases s.len(),
{
    if s.len() == 0 || !before(t, s.last()) {
        s.push(t)
    } else {
        inserted(s.drop_last(), t).push(s.last())
    }
}

/// A list of texts in order.
pub open spec fn sorted(s: Seq<Seq<char>>) -> Seq<Seq<char>>
    decreases s.len(),
{
    if s.len() == 0 {
        s
    } else {
        inserted(sorted(s.drop_last()), s.last())
    }
}

/// The registry with a selector over everything, unless one is configured.
pub open spec fn with_global(r: RegView, store: bool) -> RegView {
    if keys(r.names).contains("GLOBAL"@) {
        r
    } else {
        with_node(
            r,
            "GLOBAL"@,
            NodeView::Group {
                section: None,
                kind: GroupKind::Select { persistent: store },
                members: ids_of(r.names, sorted(keys(r.names))),
                providers: Seq::empty(),
            },
        )
    }
}

/// The dialer that a proxy asks for: not an empty name, and not itself.
pub open spec fn dialer_edge(o: Opts) -> Option<(Seq<char>, Seq<char>)> {
    match (yaml::str_option(o, "name"@), yaml::str_option(o, "dialer-proxy"@)) {
        (Some(n), Some(d)) => if d.len() > 0 && d != n {
            Some((n, d))
        } else {
            None
        },
        _ => None,
    }
}

/// The dialers that the first `n` proxies ask for.
pub open spec fn dialer_edges(proxies: Seq<Options>, n: nat) -> Seq<(Seq<char>, Seq<char>)>
    decreases n,
{
    if n == 0 {
        Seq::empty()
    } else {
        let e = dialer_edges(proxies, (n - 1) as nat);
        match dialer_edge(proxies[n - 1]@) {
            Some(x) => e.push(x),
            None => e,
        }
    }
}

/// The proxies that ask for a dialer.
pub open spec fn askers(edges: Seq<(Seq<char>, Seq<char>)>) -> Seq<Seq<char>> {
    edges.map_values(|e: (Seq<char>, Seq<char>)| e.0)
}

/// A registry with the names whose dialers are settled and the edges that wait.
pub struct Dialing {
    pub reg: RegView,
    pub settled: Seq<Seq<char>>,
    pub waiting: Seq<(Seq<char>, Seq<char>)>,
}

/// Whether an edge has to wait for its dialer to get its own dialer.
pub open spec fn must_wait(d: Seq<char>, needs: Seq<Seq<char>>, settled: Seq<Seq<char>>) -> bool {
    needs.contains(d) && !settled.contains(d)
}

/// One edge: it waits, or the proxy is wrapped if it and its dialer exist.
pub open spec fn dial_one(s: Dialing, e: (Seq<char>, Seq<char>), needs: Seq<Seq<char>>) -> Dialing {
    if must_wait(e.1, needs, s.settled) {
        Dialing { waiting: s.waiting.push(e), ..s }
    } else {
        let reg = match (lookup(s.reg.names, e.0), lookup(s.reg.names, e.1)) {
            (Some(inner), Some(dialer)) => with_node(
                s.reg,
                e.0,
                NodeView::Dialed { inner, dialer },
            ),
            _ => s.reg,
        };
        Dialing { reg, settled: s.settled.push(e.0), waiting: s.waiting }
    }
}

/// One pass over a list of edges.
pub open spec fn dial_pass(
    s: Dialing,
    edges: Seq<(Seq<char>, Seq<char>)>,
    needs: Seq<Seq<char>>,
) -> Dialing
    decreases edges.len(),
{
    if edges.len() == 0 {
        s
    } else {
        dial_one(dial_pass(s, edges.drop_last(), needs), edges.last(), needs)
    }
}

/// Passes over the edges that wait, until none is left or a pass settles none.
pub open spec fn dial_all(s: Dialing, needs: Seq<Seq<char>>) -> Dialing
    decreases s.waiting.len(),
{
    if s.waiting.len() == 0 {
        s
    } else {
        let t = dial_pass(Dialing { waiting: Seq::empty(), ..s }, s.waiting, needs);
        if t.waiting.len() < s.waiting.len() {
            dial_all(t, needs)
        } else {
            t
        }
    }
}

/// The registry with the dialers that the proxies ask for.
pub open spec fn with_dialers(r: RegView, proxies: Seq<Options>) -> Dialing {
    let edges = dialer_edges(proxies, proxies.len());
    dial_all(Dialing { reg: r, settled: Seq::empty(), waiting: edges }, askers(edges))
}

/// A name stands for something exactly where it is bound.
pub proof fn lemma_lookup(names: Names, n: Seq<char>)
    ensures
        lookup(names, n) is Some <==> keys(names).contains(n),
        lookup(names, n) matches Some(id) ==> exists|i: int|
            0 <= i < names.len() && (#[trigger] names[i]) == (n, id),
    decreases names.len(),
{
    let k = keys(names);
    if names.len() > 0 {
        let rest = names.drop_last();
        lemma_lookup(rest, n);
        if names.last().0 == n {
            assert(k[names.len() - 1] == n);
            assert(names[names.len() - 1] == (n, names.last().1));
        } else {
            if keys(rest).contains(n) {
                let i = choose|i: int| 0 <= i < keys(rest).len() && keys(rest)[i] == n;
                assert(k[i] == n);
            }
            if k.contains(n) {
                let i = choose|i: int| 0 <= i < k.len() && k[i] == n;
                assert(keys(rest)[i] == n);
            }
            if let Some(id) = lookup(names, n) {
                let i = choose|i: int| 0 <= i < rest.len() && (#[trigger] rest[i]) == (n, id);
                assert(names[i] == (n, id));
            }
        }
    }
}

/// A new node keeps a registry in order.
pub proof fn lemma_bind_ok(r: RegView, n: Seq<char>, node: NodeView)
    requires
        reg_ok(r),
    ensures
        reg_ok(with_node(r, n, node)),
{
    let id = r.nodes.len() as int;
    let b = bind(r.names, n, id);
    if keys(r.names).contains(n) {
        assert forall|i: int| 0 <= i < b.len() implies 0 <= (#[trigger] b[i]).1 < id + 1 by {
            assert(0 <= r.names[i].1 < id);
        }
        assert forall|i: int, j: int| 0 <= i < j < b.len() implies (#[trigger] b[i]).0 != (
        #[trigger] b[j]).0 by {
            assert(r.names[i].0 != r.names[j].0);
        }
    } else {
        assert forall|i: int| 0 <= i < b.len() implies 0 <= (#[trigger] b[i]).1 < id + 1 by {
            if i < r.names.len() {
                assert(0 <= r.names[i].1 < id);
            }
        }
        assert forall|i: int, j: int| 0 <= i < j < b.len() implies (#[trigger] b[i]).0 != (
        #[trigger] b[j]).0 by {
            if j < r.names.len() {
                assert(r.names[i].0 != r.names[j].0);
            } else {
                assert(keys(r.names)[i] == r.names[i].0);
            }
        }
    }
}

pub fn comes_before(a: &str, b: &str) -> (r: bool)
    ensures
        r == before(a@, b@),
{
    let x = text::chars_of(a);
    let y = text::chars_of(b);
    let mut i: usize = 0;
    assert(x@.skip(0) == x@);
    assert(y@.skip(0) == y@);
    while i < x.len() && i < y.len()
        invariant
            x@ == a@,
            y@ == b@,
            i <= x@.len(),
            i <= y@.len(),
            before(x@, y@) == before(x@.skip(i as int), y@.skip(i as int)),
        decreases x@.len() - i,
    {
        assert(x@.skip(i as int).skip(1) == x@.skip(i + 1));
        assert(y@.skip(i as int).skip(1) == y@.skip(i + 1));
        if x[i] != y[i] {
            return x[i] < y[i];
        }
        i += 1;
    }
    i == x.len() && i < y.len()
}

/// Puts texts in order.
pub fn sort_strings(v: &Vec<String>) -> (out: Vec<String>)
    ensures
        text::views(out@) == sorted(text::views(v@)),
{
    let ghost all = text::views(v@);
    let mut out = text::no_strings();
    let mut i: usize = 0;
    while i < v.len()
        invariant
            i <= v@.len(),
            all == text::views(v@),
            text::views(out@) == sorted(all.take(i as int)),
        decreases v@.len() - i,
    {
        let ghost done = text::views(out@);
        let t = v[i].clone();
        assert(all.take(i + 1).drop_last() == all.take(i as int));
        assert(all.take(i + 1).last() == t@);
        let mut n: usize = out.len();
        assert(done.take(n as int) == done);
        assert(inserted(done, t@) =~= inserted(done.take(n as int), t@) + done.skip(n as int));
        while n > 0 && comes_before(t.as_str(), out[n - 1].as_str())
            invariant
                done == text::views(out@),
                n <= out@.len(),
                inserted(done, t@) == inserted(done.take(n as int), t@) + done.skip(n as int),
            decreases n,
        {
            assert(done.take(n as int).drop_last() == done.take(n - 1));
            assert(inserted(done.take(n - 1), t@).push(done[n - 1]) + done.skip(n as int)
                =~= inserted(done.take(n - 1), t@) + done.skip(n - 1));
            n -= 1;
        }
        assert(n > 0 ==> done.take(n as int).last() == out@[n - 1]@);
        let ghost before_insert = out@;
        out.insert(n, t);
        assert(text::views(out@) =~= done.take(n as int).push(t@) + done.skip(n as int));
        i += 1;
    }
    assert(all.take(i as int) == all);
    out
}

impl ProxyRegistry {
    /// Each name is bound once, to a node that exists.
    pub open spec fn wf(&self) -> bool {
        reg_ok(self@)
    }

    /// A registry without nodes.
    fn empty() -> (r: ProxyRegistry)
        ensures
            r.wf(),
            r@ == (RegView { nodes: Seq::empty(), names: Seq::empty() }),
    {
        let r = ProxyRegistry { nodes: Vec::new(), names: Vec::new() };
        assert(r@.nodes =~= Seq::<NodeView>::empty());
        assert(r@.names =~= Names::empty());
        r
    }

    /// What a name stands for.
    pub fn get(&self, name: &str) -> (r: Option<usize>)
        requires
            self.wf(),
        ensures
            (match r {
                Some(i) => lookup(self@.names, name@) == Some(i as int) && i < self@.nodes.len(),
                None => lookup(self@.names, name@) is None,
            }),
    {
        let ghost names = self@.names;
        let mut i: usize = self.names.len();
        assert(names.take(i as int) == names);
        while i > 0
            invariant
                self.wf(),
                names == self@.names,
                names.len() == self.names@.len(),
                i <= names.len(),
                lookup(names, name@) == lookup(names.take(i as int), name@),
            decreases i,
        {
            assert(names.take(i as int).drop_last() == names.take(i - 1));
            assert(names.take(i as int).last() == names[i - 1]);
            assert(names[i - 1] == (self.names@[i - 1].0@, self.names@[i - 1].1 as int));
            if text::same(self.names[i - 1].0.as_str(), name) {
                return Some(self.names[i - 1].1);
            }
            i -= 1;
        }
        None
    }

    /// The nodes.
    pub fn nodes(&self) -> (r: &Vec<Node>)
        ensures
            r@.map_values(|n: Node| n@) == self@.nodes,
    {
        &self.nodes
    }

    /// The names, in the order in which they were first bound.
    pub fn names(&self) -> (out: Vec<String>)
        ensures
            text::views(out@) == keys(self@.names),
    {
        let mut out = text::no_strings();
        let mut i: usize = 0;
        while i < self.names.len()
            invariant
                i <= self.names@.len(),
                text::views(out@) == keys(self@.names).take(i as int),
            decreases self.names@.len() - i,
        {
            text::push_string(&mut out, self.names[i].0.clone());
            assert(keys(self@.names).take(i + 1) =~= keys(self@.names).take(i as int).push(
                self.names@[i as int].0@,
            ));
            i += 1;
        }
        assert(keys(self@.names).take(i as int) =~= keys(self@.names));
        out
    }

    /// Makes a node and binds a name to it.
    fn insert(&mut self, name: &str, node: Node)
        requires
            old(self).wf(),
        ensures
            final(self).wf(),
            final(self)@ == with_node(old(self)@, name@, node@),
    {
        let ghost before = self@;
        let id: usize = self.nodes.len();
        let ghost all = self.names@;
        let mut names: Vec<(String, usize)> = Vec::new();
        let mut found = false;
        let mut i: usize = 0;
        while i < self.names.len()
            invariant
                self.names@ == all,
                i <= all.len(),
                names@.len() == i,
                forall|j: int|
                    0 <= j < i ==> (#[trigger] names@[j]).0@ == all[j].0@ && names@[j].1 == (if all[j].0@
                        == name@ {
                        id
                    } else {
                        all[j].1
                    }),
                found <==> exists|j: int| 0 <= j < i && (#[trigger] all[j]).0@ == name@,
            decreases all.len() - i,
        {
            let n = self.names[i].0.clone();
            if text::same(n.as_str(), name) {
                found = true;
                names.push((n, id));
            } else {
                names.push((n, self.names[i].1));
            }
            i += 1;
        }
        if !found {
            names.push((name.to_owned(), id));
        }
        proof {
            let k = keys(before.names);
            if found {
                let j = choose|j: int| 0 <= j < all.len() && (#[trigger] all[j]).0@ == name@;
                assert(k[j] == name@);
            }
            if k.contains(name@) {
                let j = choose|j: int| 0 <= j < k.len() && k[j] == name@;
                assert(all[j].0@ == name@);
            }
            assert(name_views(names@) =~= bind(before.names, name@, id as int));
            lemma_bind_ok(before, name@, node@);
        }
        self.names = names;
        self.nodes.push(node);
        assert(self@.nodes =~= before.nodes.push(node@));
    }

    /// The nodes that names stand for, all of which have to be bound.
    fn ids(&self, list: &Vec<String>) -> (out: Vec<usize>)
        requires
            self.wf(),
            forall|i: int|
                0 <= i < list@.len() ==> keys(self@.names).contains((#[trigger] list@[i])@),
        ensures
            ints(out@) == ids_of(self@.names, text::views(list@)),
    {
        let mut out: Vec<usize> = Vec::new();
        let mut i: usize = 0;
        while i < list.len()
            invariant
                self.wf(),
                i <= list@.len(),
                forall|i: int|
                    0 <= i < list@.len() ==> keys(self@.names).contains((#[trigger] list@[i])@),
                ints(out@) == ids_of(self@.names, text::views(list@)).take(i as int),
            decreases list@.len() - i,
        {
            proof {
                lemma_lookup(self@.names, list@[i as int]@);
            }
            let ghost done = ints(out@);
            assert(text::views(list@)[i as int] == list@[i as int]@);
            if let Some(id) = self.get(list[i].as_str()) {
                out.push(id);
                assert(ints(out@) =~= done.push(id as int));
            }
            assert(ints(out@) =~= ids_of(self@.names, text::views(list@)).take(i + 1));
            i += 1;
        }
        assert(ints(out@) =~= ids_of(self@.names, text::views(list@)));
        out
    }

    /// Tries to build a group.
    fn insert_group(
        &mut self,
        groups: &Vec<RawProxyGroup>,
        i: usize,
        strict: bool,
        providers: &Vec<String>,
        store: bool,
    ) -> (built: bool)
        requires
            old(self).wf(),
            i < groups@.len(),
        ensures
            final(self).wf(),
            (match try_group(
                old(self)@,
                groups@,
                i as int,
                strict,
                text::views(providers@),
                store,
            ) {
                Some(r) => built && final(self)@ == r,
                None => !built && final(self)@ == old(self)@,
            }),
    {
        let existing = self.names();
        match group::parse_proxy_group_inner(&groups[i], &existing, strict, providers, store) {
            Err(_) => false,
            Ok(plan) => {
                proof {
                    let m = group::members_of(groups@[i as int], keys(self@.names));
                    lemma_members_known(groups@[i as int], keys(self@.names));
                    assert forall|k: int| 0 <= k < plan.members@.len() implies keys(
                        self@.names,
                    ).contains((#[trigger] plan.members@[k])@) by {
                        assert(m[k] == plan.members@[k]@);
                    }
                }
                let members = self.ids(&plan.members);
                let node = Node::Group {
                    section: Some(i),
                    kind: plan.kind,
                    members,
                    providers: plan.providers,
                };
                assert(node@ == group_node(
                    self@,
                    groups@[i as int],
                    i as int,
                    text::views(providers@),
                    store,
                ));
                self.insert(groups[i].name.as_str(), node);
                true
            },
        }
    }

    /// One pass over the groups that are left.
    fn insert_groups(
        &mut self,
        groups: &Vec<RawProxyGroup>,
        left: &Vec<usize>,
        strict: bool,
        providers: &Vec<String>,
        store: bool,
    ) -> (still: Vec<usize>)
        requires
            old(self).wf(),
            forall|k: int| 0 <= k < left@.len() ==> #[trigger] left@[k] < groups@.len(),
        ensures
            final(self).wf(),
            group_pass(
                old(self)@,
                groups@,
                ints(left@),
                strict,
                text::views(providers@),
                store,
            ) == (final(self)@, ints(still@)),
            still@.len() <= left@.len(),
            forall|k: int| 0 <= k < still@.len() ==> #[trigger] still@[k] < groups@.len(),
    {
        let ghost start = self@;
        let ghost all = ints(left@);
        let mut still: Vec<usize> = Vec::new();
        let mut i: usize = 0;
        assert(ints(still@) =~= Seq::<int>::empty());
        while i < left.len()
            invariant
                self.wf(),
                i <= left@.len(),
                all == ints(left@),
                forall|k: int| 0 <= k < left@.len() ==> #[trigger] left@[k] < groups@.len(),
                group_pass(
                    start,
                    groups@,
                    all.take(i as int),
                    strict,
                    text::views(providers@),
                    store,
                ) == (self@, ints(still@)),
                still@.len() <= i,
                forall|k: int| 0 <= k < still@.len() ==> #[trigger] still@[k] < groups@.len(),
            decreases left@.len() - i,
        {
            assert(all.take(i + 1).drop_last() == all.take(i as int));
            assert(all.take(i + 1).last() == left@[i as int]);
            if !self.insert_group(groups, left[i], strict, providers, store) {
                let ghost shown = ints(still@).push(left@[i as int] as int);
                still.push(left[i]);
                assert(ints(still@) =~= shown);
            }
            i += 1;
        }
        assert(all.take(i as int) == all);
        still
    }

    /// Builds the configured groups, which may refer to each other.
    fn resolve_groups(&mut self, groups: &Vec<RawProxyGroup>, providers: &Vec<String>, store: bool)
        requires
            old(self).wf(),
        ensures
            final(self).wf(),
            final(self)@ == with_groups(
                old(self)@,
                groups@,
                Seq::new(groups@.len(), |i: int| i),
                text::views(providers@),
                store,
            ),
    {
        let ghost start = self@;
        let ghost first = Seq::new(groups@.len(), |i: int| i);
        let mut left: Vec<usize> = Vec::new();
        let mut i: usize = 0;
        while i < groups.len()
            invariant
                self.wf(),
                self@ == start,
                i <= groups@.len(),
                left@.len() == i,
                forall|k: int| 0 <= k < i ==> #[trigger] left@[k] == k,
            decreases groups@.len() - i,
        {
            left.push(i);
            i += 1;
        }
        assert(ints(left@) =~= first);
        while left.len() > 0
            invariant
                self.wf(),
                start == old(self)@,
                first == Seq::new(groups@.len(), |i: int| i),
                forall|k: int| 0 <= k < left@.len() ==> #[trigger] left@[k] < groups@.len(),
                with_groups(start, groups@, first, text::views(providers@), store) == with_groups(
                    self@,
                    groups@,
                    ints(left@),
                    text::views(providers@),
                    store,
                ),
            decreases left@.len(),
        {
            let n: usize = left.len();
            let still = self.insert_groups(groups, &left, true, providers, store);
            if still.len() == n {
                self.insert_groups(groups, &still, false, providers, store);
                return;
            }
            left = still;
        }
    }

    /// Makes the selector over everything, unless one is configured.
    fn insert_global(&mut self, store: bool)
        requires
            old(self).wf(),
        ensures
            final(self).wf(),
            final(self)@ == with_global(old(self)@, store),
    {
        let names = self.names();
        if text::has_string(&names, "GLOBAL") {
            return;
        }
        let order = sort_strings(&names);
        proof {
            let k = keys(self@.names);
            lemma_sorted_members(k);
            assert forall|i: int| 0 <= i < order@.len() implies k.contains((#[trigger] order@[i])@) by {
                assert(text::views(order@)[i] == order@[i]@);
                assert(sorted(k).contains(order@[i]@));
            }
        }
        let members = self.ids(&order);
        let node = Node::Group {
            section: None,
            kind: GroupKind::Select { persistent: store },
            members,
            providers: text::no_strings(),
        };
        self.insert("GLOBAL", node);
    }
}

/// The members of a group exist.
pub proof fn lemma_members_known(g: RawProxyGroup, existing: Seq<Seq<char>>)
    ensures
        forall|k: int|
            0 <= k < group::members_of(g, existing).len() ==> existing.contains(
                #[trigger] group::members_of(g, existing)[k],
            ),
{
    let names = group::opt_list(g.proxies);
    lemma_known(names, existing);
    let m = group::members_of(g, existing);
    let kn = group::known(names, existing);
    let n = m.len() - kn.len();
    assert forall|k: int| 0 <= k < m.len() implies existing.contains(#[trigger] m[k]) by {
        if k < n {
            assert(m[k] == existing[k]);
        } else {
            assert(m[k] == kn[k - n]);
        }
    }
}

proof fn lemma_known(names: Seq<Seq<char>>, existing: Seq<Seq<char>>)
    ensures
        forall|k: int|
            0 <= k < group::known(names, existing).len() ==> existing.contains(
                #[trigger] group::known(names, existing)[k],
            ),
    decreases names.len(),
{
    if names.len() > 0 {
        lemma_known(names.drop_last(), existing);
        let k = group::known(names.drop_last(), existing);
        let all = group::known(names, existing);
        assert forall|i: int| 0 <= i < all.len() implies existing.contains(#[trigger] all[i]) by {
            if i < k.len() {
                assert(all[i] == k[i]);
            }
        }
    }
}

proof fn lemma_inserted_members(s: Seq<Seq<char>>, t: Seq<char>)
    ensures
        forall|x: Seq<char>| #[trigger]
            inserted(s, t).contains(x) <==> (s.contains(x) || x == t),
        inserted(s, t).len() == s.len() + 1,
    decreases s.len(),
{
    let r = inserted(s, t);
    if s.len() == 0 || !before(t, s.last()) {
        assert forall|x: Seq<char>| #[trigger] r.contains(x) <==> (s.contains(x) || x == t) by {
            if s.contains(x) {
                let i = choose|i: int| 0 <= i < s.len() && s[i] == x;
                assert(r[i] == x);
            }
            if x == t {
                assert(r[s.len() as int] == x);
            }
        }
    } else {
        lemma_inserted_members(s.drop_last(), t);
        let m = inserted(s.drop_last(), t);
        assert forall|x: Seq<char>| #[trigger] r.contains(x) <==> (s.contains(x) || x == t) by {
            if r.contains(x) {
                let i = choose|i: int| 0 <= i < r.len() && r[i] == x;
                if i < m.len() {
                    assert(m.contains(x));
                    if s.drop_last().contains(x) {
                        let j = choose|j: int| 0 <= j < s.len() - 1 && s.drop_last()[j] == x;
                        assert(s[j] == x);
                    }
                } else {
                    assert(s[s.len() - 1] == x);
                }
            }
            if s.contains(x) {
                let i = choose|i: int| 0 <= i < s.len() && s[i] == x;
                if i < s.len() - 1 {
                    assert(s.drop_last()[i] == x);
                    assert(m.contains(x));
                    let j = choose|j: int| 0 <= j < m.len() && m[j] == x;
                    assert(r[j] == x);
                } else {
                    assert(r[m.len() as int] == x);
                }
            }
            if x == t {
                assert(m.contains(x));
                let j = choose|j: int| 0 <= j < m.len() && m[j] == x;
                assert(r[j] == x);
            }
        }
    }
}

/// Sorting keeps the members of a list.
pub proof fn lemma_sorted_members(s: Seq<Seq<char>>)
    ensures
        forall|x: Seq<char>| #[trigger] sorted(s).contains(x) <==> s.contains(x),
        sorted(s).len() == s.len(),
    decreases s.len(),
{
    if s.len() > 0 {
        lemma_sorted_members(s.drop_last());
        lemma_inserted_members(sorted(s.drop_last()), s.last());
        assert forall|x: Seq<char>| #[trigger] sorted(s).contains(x) <==> s.contains(x) by {
            if s.contains(x) {
                let i = choose|i: int| 0 <= i < s.len() && s[i] == x;
                if i < s.len() - 1 {
                    assert(s.drop_last()[i] == x);
                    assert(sorted(s.drop_last()).contains(x));
                }
            }
            if sorted(s).contains(x) {
                if sorted(s.drop_last()).contains(x) {
                    let i = choose|i: int| 0 <= i < s.len() - 1 && s.drop_last()[i] == x;
                    assert(s[i] == x);
                } else {
                    assert(s[s.len() - 1] == x);
                }
            }
        }
    }
}

fn push_edge(v: &mut Vec<(String, String)>, name: &str, dialer: &str)
    ensures
        yaml::pair_views(final(v)@) == yaml::pair_views(old(v)@).push((name@, dialer@)),
        final(v)@.len() == old(v)@.len() + 1,
{
    let ghost before = v@;
    v.push((name.to_owned(), dialer.to_owned()));
    assert(yaml::pair_views(v@) =~= yaml::pair_views(before).push((name@, dialer@)));
}

fn collect_edges(proxies: &Vec<Options>) -> (out: Vec<(String, String)>)
    ensures
        yaml::pair_views(out@) == dialer_edges(proxies@, proxies@.len()),
{
    let mut out: Vec<(String, String)> = Vec::new();
    let mut i: usize = 0;
    assert(yaml::pair_views(out@) =~= Seq::<(Seq<char>, Seq<char>)>::empty());
    while i < proxies.len()
        invariant
            i <= proxies@.len(),
            yaml::pair_views(out@) == dialer_edges(proxies@, i as nat),
        decreases proxies@.len() - i,
    {
        let o = &proxies[i];
        if let Some(n) = yaml::get_str_option(o, "name") {
            if let Some(d) = yaml::get_str_option(o, "dialer-proxy") {
                if !d.is_empty() && !text::same(d, n) {
                    push_edge(&mut out, n, d);
                }
            }
        }
        i += 1;
    }
    out
}

impl ProxyRegistry {
    /// One pass over the edges.
    fn dial(
        &mut self,
        edges: &Vec<(String, String)>,
        needs: &Vec<String>,
        settled: &mut Vec<String>,
    ) -> (waiting: Vec<(String, String)>)
        requires
            old(self).wf(),
        ensures
            final(self).wf(),
            dial_pass(
                Dialing {
                    reg: old(self)@,
                    settled: text::views(old(settled)@),
                    waiting: Seq::empty(),
                },
                yaml::pair_views(edges@),
                text::views(needs@),
            ) == (Dialing {
                reg: final(self)@,
                settled: text::views(final(settled)@),
                waiting: yaml::pair_views(waiting@),
            }),
            waiting@.len() <= edges@.len(),
    {
        let ghost start = Dialing {
            reg: self@,
            settled: text::views(settled@),
            waiting: Seq::empty(),
        };
        let ghost all = yaml::pair_views(edges@);
        let mut waiting: Vec<(String, String)> = Vec::new();
        let mut i: usize = 0;
        assert(yaml::pair_views(waiting@) =~= Seq::<(Seq<char>, Seq<char>)>::empty());
        while i < edges.len()
            invariant
                self.wf(),
                i <= edges@.len(),
                all == yaml::pair_views(edges@),
                dial_pass(start, all.take(i as int), text::views(needs@)) == (Dialing {
                    reg: self@,
                    settled: text::views(settled@),
                    waiting: yaml::pair_views(waiting@),
                }),
                waiting@.len() <= i,
            decreases edges@.len() - i,
        {
            assert(all.take(i + 1).drop_last() == all.take(i as int));
            assert(all.take(i + 1).last() == (edges@[i as int].0@, edges@[i as int].1@));
            let name = edges[i].0.as_str();
            let dialer = edges[i].1.as_str();
            if text::has_string(needs, dialer) && !text::has_string(settled, dialer) {
                push_edge(&mut waiting, name, dialer);
            } else {
                if let Some(d) = self.get(dialer) {
                    if let Some(inner) = self.get(name) {
                        self.insert(name, Node::Dialed { inner, dialer: d });
                    }
                }
                text::push_string(settled, edges[i].0.clone());
            }
            i += 1;
        }
        assert(all.take(i as int) == all);
        waiting
    }

    /// Wraps every proxy that asks for a dialer, the deepest first. Gives the
    /// edges of cycles, whose proxies are left as they are.
    pub fn apply_dialer_proxies(&mut self, proxies: &Vec<Options>) -> (cycles: Vec<
        (String, String),
    >)
        requires
            old(self).wf(),
        ensures
            final(self).wf(),
            final(self)@ == with_dialers(old(self)@, proxies@).reg,
            yaml::pair_views(cycles@) == with_dialers(old(self)@, proxies@).waiting,
    {
        let mut pending = collect_edges(proxies);
        let ghost edges = yaml::pair_views(pending@);
        let mut needs = text::no_strings();
        let mut i: usize = 0;
        while i < pending.len()
            invariant
                i <= pending@.len(),
                edges == yaml::pair_views(pending@),
                text::views(needs@) == askers(edges).take(i as int),
            decreases pending@.len() - i,
        {
            text::push_string(&mut needs, pending[i].0.clone());
            assert(askers(edges).take(i + 1) =~= askers(edges).take(i as int).push(
                pending@[i as int].0@,
            ));
            i += 1;
        }
        assert(askers(edges).take(i as int) =~= askers(edges));
        let ghost start = Dialing { reg: self@, settled: Seq::empty(), waiting: edges };
        let mut settled = text::no_strings();
        while pending.len() > 0
            invariant
                self.wf(),
                text::views(needs@) == askers(edges),
                with_dialers(old(self)@, proxies@) == dial_all(start, askers(edges)),
                dial_all(start, askers(edges)) == dial_all(
                    Dialing {
                        reg: self@,
                        settled: text::views(settled@),
                        waiting: yaml::pair_views(pending@),
                    },
                    askers(edges),
                ),
            decreases pending@.len(),
        {
            let n: usize = pending.len();
            let waiting = self.dial(&pending, &needs, &mut settled);
            if waiting.len() == n {
                return waiting;
            }
            pending = waiting;
        }
        pending
    }
}

/// The configured proxies.
pub open spec fn proxies_in(raw: RawConfig) -> Seq<Options> {
    match raw.proxies {
        Some(v) => v@,
        None => Seq::empty(),
    }
}

/// The configured groups.
pub open spec fn groups_in(raw: RawConfig) -> Seq<RawProxyGroup> {
    match raw.proxy_groups {
        Some(v) => v@,
        None => Seq::empty(),
    }
}

/// The registry before dialers are set.
pub open spec fn undialed(
    raw: RawConfig,
    failed: Seq<usize>,
    resolver: bool,
    providers: Seq<Seq<char>>,
    store: bool,
) -> RegView {
    let leaves = with_leaves(
        builtins(raw.routing_mark, resolver),
        proxies_in(raw),
        failed,
        proxies_in(raw).len(),
    );
    let groups = groups_in(raw);
    with_global(
        with_groups(leaves, groups, Seq::new(groups.len(), |i: int| i), providers, store),
        store,
    )
}

/// The registry of a configuration.
pub open spec fn registry_of(
    raw: RawConfig,
    failed: Seq<usize>,
    resolver: bool,
    providers: Seq<Seq<char>>,
    store: bool,
) -> Dialing {
    with_dialers(undialed(raw, failed, resolver, providers, store), proxies_in(raw))
}

/// A rebuilt configuration.
pub struct RebuildResult {
    pub registry: ProxyRegistry,
    /// Edges of dialer cycles, which were left out.
    pub cycles: Vec<(String, String)>,
}

/// What came of the parts of a rebuild that are done elsewhere.
#[derive(Debug)]
pub struct Outside {
    /// The positions of the configured proxies that could not be set up.
    pub failed: Vec<usize>,
    /// What came of reading the databases that the rules need, and the section on them.
    pub databases: Result<(), String>,
    /// What came of reading the blocks of rules. It is only looked at where there are
    /// any.
    pub blocks: Result<(), String>,
    /// The blocks that the rules refer to, in order.
    pub references: Vec<String>,
}

impl Default for Outside {
    /// Nothing failed, and no rule refers to a block.
    fn default() -> (o: Self)
        ensures
            o.failed@.len() == 0,
            o.databases is Ok,
            o.blocks is Ok,
            o.references@.len() == 0,
    {
        Outside {
            failed: Vec::new(),
            databases: Ok(()),
            blocks: Ok(()),
            references: text::no_strings(),
        }
    }
}

/// Why a configuration cannot be rebuilt.
#[derive(Clone, Debug)]
pub enum RebuildError {
    /// A database that the rules need cannot be read.
    Databases(String),
    /// A block of rules cannot be read.
    Blocks(String),
    /// A rule refers to a block of rules that is not defined.
    UndefinedSubRule(String),
}

impl RebuildError {
    /// The text of the error.
    pub fn message(&self) -> (s: String)
        ensures
            s@ == (match *self {
                RebuildError::Databases(e) => e@,
                RebuildError::Blocks(e) => e@,
                RebuildError::UndefinedSubRule(n) => "rules: SUB-RULE,"@ + n@
                    + " references undefined sub-rule block"@,
            }),
    {
        match self {
            RebuildError::Databases(e) => e.clone(),
            RebuildError::Blocks(e) => e.clone(),
            RebuildError::UndefinedSubRule(n) => "rules: SUB-RULE,".to_owned().concat(
                n.as_str(),
            ).concat(" references undefined sub-rule block"),
        }
    }
}

/// The names of the blocks of rules.
pub open spec fn block_names(raw: RawConfig) -> Seq<Seq<char>> {
    match raw.sub_rules {
        Some(v) => v@.map_values(|x: (String, Vec<String>)| x.0@),
        None => Seq::empty(),
    }
}

/// Why the blocks of rules cannot be used, where there are any.
pub open spec fn blocks_error(raw: RawConfig, blocks: Result<(), String>) -> Option<Seq<char>> {
    match blocks {
        Err(e) => if block_names(raw).len() > 0 {
            Some(e@)
        } else {
            None
        },
        Ok(_) => None,
    }
}

/// Whether a rebuild gives what the configuration says. A database that cannot be read
/// is an error, and so is a block of rules that cannot be, and the first reference to a
/// block that is not defined, in this order.
pub open spec fn rebuild_ok(
    raw: RawConfig,
    resolver: bool,
    providers: Seq<Seq<char>>,
    store: bool,
    outside: Outside,
    r: Result<RebuildResult, RebuildError>,
) -> bool {
    let references = text::views(outside.references@);
    let bad = group::first_unknown(references, block_names(raw), 0);
    let unread = blocks_error(raw, outside.blocks);
    let reg = registry_of(raw, outside.failed@, resolver, providers, store);
    match r {
        Ok(x) => {
            &&& outside.databases is Ok
            &&& unread is None
            &&& bad is None
            &&& x.registry.wf()
            &&& x.registry@ == reg.reg
            &&& yaml::pair_views(x.cycles@) == reg.waiting
        },
        Err(RebuildError::Databases(e)) => outside.databases matches Err(m) && e@ == m@,
        Err(RebuildError::Blocks(e)) => outside.databases is Ok && unread == Some(e@),
        Err(RebuildError::UndefinedSubRule(n)) => {
            &&& outside.databases is Ok
            &&& unread is None
            &&& bad is Some
            &&& n@ == references[bad->0]
        },
    }
}

fn has_position(v: &Vec<usize>, at: usize) -> (r: bool)
    ensures
        r == ints(v@).contains(at as int),
{
    let mut i: usize = 0;
    while i < v.len()
        invariant
            i <= v@.len(),
            forall|k: int| 0 <= k < i ==> v@[k] != at,
        decreases v@.len() - i,
    {
        if v[i] == at {
            assert(ints(v@)[i as int] == at as int);
            return true;
        }
        i += 1;
    }
    false
}

fn read_block_names(raw: &RawConfig) -> (out: Vec<String>)
    ensures
        text::views(out@) == block_names(*raw),
{
    let mut out = text::no_strings();
    if let Some(v) = &raw.sub_rules {
        let ghost all = block_names(*raw);
        let mut i: usize = 0;
        while i < v.len()
            invariant
                i <= v@.len(),
                all == v@.map_values(|x: (String, Vec<String>)| x.0@),
                text::views(out@) == all.take(i as int),
            decreases v@.len() - i,
        {
            text::push_string(&mut out, v[i].0.clone());
            assert(all.take(i + 1) =~= all.take(i as int).push(v@[i as int].0@));
            i += 1;
        }
        assert(all.take(i as int) =~= all);
    }
    out
}

/// Rebuilds proxies, groups and dialers, and checks the references to blocks of
/// rules, given what came of the parts that are done elsewhere.
pub fn rebuild_from_raw_impl(
    raw: &RawConfig,
    resolver: bool,
    providers: &Vec<String>,
    store: bool,
    outside: &Outside,
) -> (r: Result<RebuildResult, RebuildError>)
    ensures
        rebuild_ok(*raw, resolver, text::views(providers@), store, *outside, r),
{
    let mut reg = ProxyRegistry::empty();
    reg.insert("DIRECT", Node::Direct { routing_mark: raw.routing_mark, resolver });
    reg.insert("REJECT", Node::Reject);
    reg.insert("REJECT-DROP", Node::RejectDrop);
    let ghost base = builtins(raw.routing_mark, resolver);
    if let Some(proxies) = &raw.proxies {
        let mut i: usize = 0;
        while i < proxies.len()
            invariant
                i <= proxies@.len(),
                reg.wf(),
                reg@ == with_leaves(base, proxies@, outside.failed@, i as nat),
            decreases proxies@.len() - i,
        {
            let failed = has_position(&outside.failed, i);
            if let Ok(_) = outbound::parse_proxy(&proxies[i]) {
                if let (Some(name), false) = (yaml::get_str_option(&proxies[i], "name"), failed) {
                    reg.insert(name, Node::Leaf { proxy: i });
                }
            }
            i += 1;
        }
    }
    let ghost leaves = reg@;
    assert(leaves == with_leaves(
        base,
        proxies_in(*raw),
        outside.failed@,
        proxies_in(*raw).len(),
    ));
    if let Some(groups) = &raw.proxy_groups {
        reg.resolve_groups(groups, providers, store);
    } else {
        assert(Seq::new(0, |i: int| i).len() == 0);
    }
    reg.insert_global(store);
    assert(reg@ == undialed(*raw, outside.failed@, resolver, text::views(providers@), store));
    let cycles = match &raw.proxies {
        Some(proxies) => reg.apply_dialer_proxies(proxies),
        None => {
            let none: Vec<Options> = Vec::new();
            assert(none@ =~= proxies_in(*raw));
            reg.apply_dialer_proxies(&none)
        },
    };
    if let Err(e) = &outside.databases {
        return Err(RebuildError::Databases(e.clone()));
    }
    let blocks = read_block_names(raw);
    assert(block_names(*raw).len() == blocks@.len());
    if let Err(e) = &outside.blocks {
        if blocks.len() > 0 {
            return Err(RebuildError::Blocks(e.clone()));
        }
    }
    if let Some(i) = group::find_unknown(&outside.references, &blocks) {
        assert(text::views(outside.references@)[i as int] == outside.references@[i as int]@);
        return Err(RebuildError::UndefinedSubRule(outside.references[i].clone()));
    }
    Ok(RebuildResult { registry: reg, cycles })
}

/// Rebuilds a configuration without sources and without a store.
pub fn rebuild_from_raw(raw: &RawConfig, outside: &Outside) -> (r: Result<
    RebuildResult,
    RebuildError,
>)
    ensures
        rebuild_ok(*raw, false, Seq::empty(), false, *outside, r),
{
    rebuild_from_raw_impl(raw, false, &text::no_strings(), false, outside)
}

/// Rebuilds a configuration whose direct connections may ask this process for
/// names.
pub fn rebuild_from_raw_with_resolver(
    raw: &RawConfig,
    resolver: bool,
    outside: &Outside,
) -> (r: Result<RebuildResult, RebuildError>)
    ensures
        rebuild_ok(*raw, resolver, Seq::empty(), false, *outside, r),
{
    rebuild_from_raw_impl(raw, resolver, &text::no_strings(), false, outside)
}

/// Rebuilds a configuration at run time, with its sources and its store.
pub fn rebuild_from_raw_runtime(
    raw: &RawConfig,
    resolver: bool,
    providers: &Vec<String>,
    store: bool,
    outside: &Outside,
) -> (r: Result<RebuildResult, RebuildError>)
    ensures
        rebuild_ok(*raw, resolver, text::views(providers@), store, *outside, r),
{
    rebuild_from_raw_impl(raw, resolver, providers, store, outside)
}

/// What stands before a reference to a block of rules.
pub const SUB_RULE: &'static str = "SUB-RULE,";

/// The block that a rule refers to: what follows its last comma.
pub open spec fn reference_in(rule: Seq<char>) -> Option<Seq<char>> {
    if SUB_RULE@.is_prefix_of(text::trimmed(rule)) {
        Some(text::trimmed(text::parts(text::trimmed(rule), ',').last()))
    } else {
        None
    }
}

/// The blocks that rules refer to, in order.
pub open spec fn references_in(rules: Seq<Seq<char>>) -> Seq<Seq<char>>
    decreases rules.len(),
{
    if rules.len() == 0 {
        Seq::empty()
    } else {
        let r = references_in(rules.drop_last());
        match reference_in(rules.last()) {
            Some(n) => r.push(n),
            None => r,
        }
    }
}

fn find_reference(rule: &str) -> (r: Option<String>)
    ensures
        text::opt_view(r) == reference_in(rule@),
{
    let rule = text::trim(rule);
    if !text::starts_with(rule.as_str(), SUB_RULE) {
        return None;
    }
    let parts = text::split(rule.as_str(), ',');
    assert(text::views(parts@).len() == parts@.len());
    assert(text::views(parts@).last() == parts@.last()@);
    Some(text::trim(parts[parts.len() - 1].as_str()))
}

/// The blocks that the rules of a configuration refer to, in order.
pub fn sub_rule_references(raw: &RawConfig) -> (out: Vec<String>)
    ensures
        text::views(out@) == (match raw.rules {
            Some(v) => references_in(text::views(v@)),
            None => Seq::empty(),
        }),
{
    let mut out = text::no_strings();
    if let Some(rules) = &raw.rules {
        let ghost all = text::views(rules@);
        let mut i: usize = 0;
        assert(all.take(0) =~= Seq::empty());
        while i < rules.len()
            invariant
                i <= rules@.len(),
                all == text::views(rules@),
                text::views(out@) == references_in(all.take(i as int)),
            decreases rules@.len() - i,
        {
            assert(all.take(i + 1).drop_last() =~= all.take(i as int));
            assert(all.take(i + 1).last() == rules@[i as int]@);
            if let Some(n) = find_reference(rules[i].as_str()) {
                text::push_string(&mut out, n);
            }
            i += 1;
        }
        assert(all.take(i as int) =~= all);
    }
    out
}

/// The first configured proxy, if it has a name that is bound.
pub open spec fn first_named(raw: RawConfig, names: Names) -> Option<int> {
    if proxies_in(raw).len() == 0 {
        None
    } else {
        match yaml::str_option(proxies_in(raw)[0]@, "name"@) {
            Some(n) => lookup(names, n),
            None => None,
        }
    }
}

/// The proxy that downloads go through: the first configured one.
pub fn first_named_proxy(raw: &RawConfig, reg: &ProxyRegistry) -> (r: Option<usize>)
    requires
        reg.wf(),
    ensures
        (match r {
            Some(i) => first_named(*raw, reg@.names) == Some(i as int) && i < reg@.nodes.len(),
            None => first_named(*raw, reg@.names) is None,
        }),
{
    match &raw.proxies {
        Some(v) => {
            if v.len() == 0 {
                return None;
            }
            match yaml::get_str_option(&v[0], "name") {
                Some(n) => reg.get(n),
                None => None,
            }
        },
        None => None,
    }
}

} // verus!
