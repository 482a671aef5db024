//! Finding elements in the accessibility tree.
//!
//! The tree is read piece by piece while it is searched. [`Search`] decides what
//! is read next and what is made of it; reading itself is up to the caller.

use vstd::prelude::*;

use crate::a11y::atspi_bridge::MAX_TRAVERSE_DEPTH;
use crate::a11y::tree::{same_role, ElementNode, ElementView, WindowNode, WindowNodeView};
use crate::text::{cat, cat3, chars_of, join, joined, lemma_texts_push, opt_text, same, texts};
use crate::types::{lemma_views_push, opt_view, views, AgentShellError, ErrorView};

verus! {

/// How many elements a search returns at most.
pub const MAX_SEARCH_RESULTS: usize = 10_000;

/// How an element is described.
#[derive(Debug)]
pub enum SemanticTarget {
    ByAccessibility {
        role: Option<String>,
        name: Option<String>,
        parent_role: Option<String>,
        parent_name: Option<String>,
    },
    /// Any other strategy, as it is printed.
    Other(String),
}

/// What is searched for.
#[derive(Debug)]
pub enum Query {
    /// Elements of a role and with a name, where these are given; inside elements
    /// of another role or with another name, where one of those is given.
    Semantic {
        role: Option<String>,
        name: Option<String>,
        parent: Option<(Option<String>, Option<String>)>,
    },
    /// Elements at a path; of one application, where that is given.
    Path { bus: Option<String>, path: String },
}

/// What is searched for.
#[verifier::ext_equal]
pub enum QueryView {
    Semantic {
        role: Option<Seq<char>>,
        name: Option<Seq<char>>,
        parent: Option<(Option<Seq<char>>, Option<Seq<char>>)>,
    },
    Path { bus: Option<Seq<char>>, path: Seq<char> },
}

impl View for Query {
    type V = QueryView;

    open spec fn view(&self) -> QueryView {
        match *self {
            Query::Semantic { role, name, parent } => QueryView::Semantic {
                role: opt_text(role),
                name: opt_text(name),
                parent: match parent {
                    Some(p) => Some((opt_text(p.0), opt_text(p.1))),
                    None => None,
                },
            },
            Query::Path { bus, path } => QueryView::Path { bus: opt_text(bus), path: path@ },
        }
    }
}

/// What is searched for by a description. A surrounding element counts where its
/// role or its name is given.
pub open spec fn query_of(t: SemanticTarget) -> Result<QueryView, ErrorView> {
    match t {
        SemanticTarget::ByAccessibility { role, name, parent_role, parent_name } => Ok(
            QueryView::Semantic {
                role: opt_text(role),
                name: opt_text(name),
                parent: if parent_role is Some || parent_name is Some {
                    Some((opt_text(parent_role), opt_text(parent_name)))
                } else {
                    None
                },
            },
        ),
        SemanticTarget::Other(s) => Err(ErrorView::NotImplemented("locator strategy: "@ + s@)),
    }
}

/// What is searched for by a description.
pub fn plan(target: SemanticTarget) -> (r: Result<Query, AgentShellError>)
    ensures
        match r {
            Ok(q) => query_of(target) == Ok::<QueryView, ErrorView>(q@),
            Err(e) => query_of(target) == Err::<QueryView, ErrorView>(e@),
        },
{
    match target {
        SemanticTarget::ByAccessibility { role, name, parent_role, parent_name } => {
            let parent = if parent_role.is_some() || parent_name.is_some() {
                Some((parent_role, parent_name))
            } else {
                None
            };
            Ok(Query::Semantic { role, name, parent })
        },
        SemanticTarget::Other(s) => Err(
            AgentShellError::NotImplemented(cat("locator strategy: ", s.as_str())),
        ),
    }
}

/// What an element has to be like.
#[derive(Debug)]
pub enum Wanted {
    Semantic { role: Option<String>, name: Option<String> },
    Path { bus: Option<String>, path: String },
}

/// What an element has to be like.
#[verifier::ext_equal]
pub enum WantedView {
    Semantic { role: Option<Seq<char>>, name: Option<Seq<char>> },
    Path { bus: Option<Seq<char>>, path: Seq<char> },
}

impl View for Wanted {
    type V = WantedView;

    open spec fn view(&self) -> WantedView {
        match *self {
            Wanted::Semantic { role, name } => WantedView::Semantic {
                role: opt_text(role),
                name: opt_text(name),
            },
            Wanted::Path { bus, path } => WantedView::Path { bus: opt_text(bus), path: path@ },
        }
    }
}

impl WantedView {
    /// The element is like that. A name has to be the same as a whole.
    pub open spec fn accepts(self, e: ElementView) -> bool {
        match self {
            WantedView::Semantic { role, name } => {
                &&& role matches Some(r) ==> same_role(e.role.name, r)
                &&& name matches Some(n) ==> e.name == n
            },
            WantedView::Path { bus, path } => {
                &&& e.path == path
                &&& bus matches Some(b) ==> e.bus_name == b
            },
        }
    }

    /// So many elements are enough.
    pub open spec fn enough(self, n: nat) -> bool {
        self is Semantic && n >= MAX_SEARCH_RESULTS
    }

    /// The elements that are returned of those found.
    pub open spec fn cut(self, s: Seq<ElementView>) -> Seq<ElementView> {
        if self is Semantic && s.len() > MAX_SEARCH_RESULTS {
            s.take(MAX_SEARCH_RESULTS as int)
        } else {
            s
        }
    }
}

impl Wanted {
    /// Whether the element is like that.
    pub fn accepts(&self, e: &ElementNode) -> (r: bool)
        ensures
            r == self@.accepts(e@),
    {
        match self {
            Wanted::Semantic { role, name } => {
                let by_role = match role {
                    Some(r) => e.role.matches_name(r.as_str()),
                    None => true,
                };
                let by_name = match name {
                    Some(n) => same(e.name.as_str(), n.as_str()),
                    None => true,
                };
                by_role && by_name
            },
            Wanted::Path { bus, path } => {
                let by_bus = match bus {
                    Some(b) => same(e.bus_name.as_str(), b.as_str()),
                    None => true,
                };
                same(e.path.as_str(), path.as_str()) && by_bus
            },
        }
    }

    fn enough(&self, n: usize) -> (r: bool)
        ensures
            r == self@.enough(n as nat),
    {
        matches!(self, Wanted::Semantic { .. }) && n >= MAX_SEARCH_RESULTS
    }
}

fn copied(o: &Option<String>) -> (r: Option<String>)
    ensures
        opt_text(r) == opt_text(*o),
{
    match o {
        Some(s) => Some(s.clone()),
        None => None,
    }
}

impl QueryView {
    /// What the elements searched for have to be like.
    pub open spec fn target(self) -> WantedView {
        match self {
            QueryView::Semantic { role, name, .. } => WantedView::Semantic { role, name },
            QueryView::Path { bus, path } => WantedView::Path { bus, path },
        }
    }

    /// What the surrounding element has to be like, if there has to be one.
    pub open spec fn around(self) -> Option<WantedView> {
        match self {
            QueryView::Semantic { parent: Some(p), .. } => Some(
                WantedView::Semantic { role: p.0, name: p.1 },
            ),
            _ => None,
        }
    }
}

impl Query {
    fn target(&self) -> (r: Wanted)
        ensures
            r@ == self@.target(),
    {
        match self {
            Query::Semantic { role, name, .. } => Wanted::Semantic {
                role: copied(role),
                name: copied(name),
            },
            Query::Path { bus, path } => Wanted::Path { bus: copied(bus), path: path.clone() },
        }
    }

    fn around(&self) -> (r: Option<Wanted>)
        ensures
            opt_view(r) == self@.around(),
    {
        match self {
            Query::Semantic { parent: Some(p), .. } => Some(
                Wanted::Semantic { role: copied(&p.0), name: copied(&p.1) },
            ),
            _ => None,
        }
    }
}

// ---------------------------------------------------------------------------
// One subtree
// ---------------------------------------------------------------------------
/// A search in the subtree below one element, in depth and in the order of the
/// children.
#[derive(Debug)]
pub struct Walk {
    wanted: Wanted,
    /// Elements to look at, the next one last, with their depths.
    todo: Vec<(ElementNode, u8)>,
    out: Vec<ElementNode>,
    /// The depth of the element whose children are being read.
    open: Option<u8>,
}

/// What a walk has done and has to do.
#[verifier::ext_equal]
pub struct WalkView {
    pub wanted: WantedView,
    pub todo: Seq<(ElementView, nat)>,
    pub out: Seq<ElementView>,
    pub open: Option<nat>,
}

/// The elements to look at.
pub open spec fn todo_views(s: Seq<(ElementNode, u8)>) -> Seq<(ElementView, nat)> {
    Seq::new(s.len(), |i: int| (s[i].0@, s[i].1 as nat))
}

impl View for Walk {
    type V = WalkView;

    closed spec fn view(&self) -> WalkView {
        WalkView {
            wanted: self.wanted@,
            todo: todo_views(self.todo@),
            out: views(self.out@),
            open: match self.open {
                Some(d) => Some(d as nat),
                None => None,
            },
        }
    }
}

impl WalkView {
    /// Nothing lies deeper than the search goes.
    pub open spec fn wf(self) -> bool {
        &&& forall|i: int| 0 <= i < self.todo.len() ==> (#[trigger] self.todo[i]).1 <= MAX_TRAVERSE_DEPTH
        &&& self.open matches Some(d) ==> d <= MAX_TRAVERSE_DEPTH
    }

    /// The search from `root`.
    pub open spec fn start(root: ElementView, wanted: WantedView) -> WalkView {
        WalkView { wanted, todo: seq![(root, 0)], out: Seq::empty(), open: None }
    }

    /// The search is over.
    pub open spec fn over(self) -> bool {
        self.todo.len() == 0 || self.wanted.enough(self.out.len())
    }

    /// Looks at the next element: the state after that, and the element whose
    /// children are then to be read.
    pub open spec fn advance(self) -> (WalkView, Option<ElementView>) {
        if self.over() {
            (self, None)
        } else {
            let (e, d) = self.todo.last();
            (
                WalkView {
                    todo: self.todo.drop_last(),
                    out: if self.wanted.accepts(e) {
                        self.out.push(e)
                    } else {
                        self.out
                    },
                    open: Some(d),
                    ..self
                },
                Some(e),
            )
        }
    }

    /// Takes in the children of that element. Children that could not be read, or
    /// lie too deep, are passed over.
    pub open spec fn fed(self, children: Option<Seq<ElementView>>) -> WalkView {
        match (self.open, children) {
            (Some(d), Some(c)) => if d < MAX_TRAVERSE_DEPTH {
                WalkView { todo: self.todo + stacked(c, d + 1), open: None, ..self }
            } else {
                WalkView { open: None, ..self }
            },
            _ => WalkView { open: None, ..self },
        }
    }
}

/// Elements to look at, all of one depth, the first of them next.
pub open spec fn stacked(c: Seq<ElementView>, depth: nat) -> Seq<(ElementView, nat)> {
    Seq::new(c.len(), |i: int| (c[c.len() - 1 - i], depth))
}

/// The view of what came of reading a list of elements.
pub open spec fn read_views(r: Result<Vec<ElementNode>, AgentShellError>) -> Option<
    Seq<ElementView>,
> {
    match r {
        Ok(v) => Some(views(v@)),
        Err(_) => None,
    }
}

proof fn lemma_todo_push(s: Seq<(ElementNode, u8)>, x: (ElementNode, u8))
    ensures
        todo_views(s.push(x)) == todo_views(s).push((x.0@, x.1 as nat)),
{
    assert(todo_views(s.push(x)) =~= todo_views(s).push((x.0@, x.1 as nat)));
}

impl Walk {
    /// A search from `root`.
    pub fn new(root: &ElementNode, wanted: Wanted) -> (r: Walk)
        ensures
            r@ == WalkView::start(root@, wanted@),
            r@.wf(),
    {
        let mut todo: Vec<(ElementNode, u8)> = Vec::new();
        todo.push((root.clone(), 0));
        let r = Walk { wanted, todo, out: Vec::new(), open: None };
        assert(r@.todo =~= seq![(root@, 0nat)]);
        assert(r@.out =~= Seq::<ElementView>::empty());
        r
    }

    /// Looks at the next element, and returns it where its children are to be
    /// read.
    pub fn advance(&mut self) -> (r: Option<ElementNode>)
        requires
            old(self)@.wf(),
        ensures
            (final(self)@, opt_view(r)) == old(self)@.advance(),
            final(self)@.wf(),
    {
        broadcast use lemma_views_push;

        if self.todo.len() == 0 || self.wanted.enough(self.out.len()) {
            return None;
        }
        let ghost was = self@;
        assert(was.todo.last() == (self.todo@.last().0@, self.todo@.last().1 as nat));
        let (e, d) = match self.todo.pop() {
            Some(x) => x,
            None => {
                assert(false);
                return None;
            },
        };
        assert(todo_views(self.todo@) =~= was.todo.drop_last());
        if self.wanted.accepts(&e) {
            self.out.push(e.clone());
        }
        self.open = Some(d);
        assert(self@.todo =~= was.todo.drop_last());
        Some(e)
    }

    /// Takes in the children of the element that was returned last.
    pub fn feed(&mut self, children: Result<Vec<ElementNode>, AgentShellError>)
        requires
            old(self)@.wf(),
        ensures
            final(self)@ == old(self)@.fed(read_views(children)),
            final(self)@.wf(),
    {
        let ghost was = self@;
        let d = match self.open {
            Some(d) => d,
            None => return ,
        };
        self.open = None;
        assert(self@.todo =~= was.todo);
        if d >= MAX_TRAVERSE_DEPTH {
            return ;
        }
        let mut left = match children {
            Ok(v) => v,
            Err(_) => return ,
        };
        let ghost c = views(left@);
        let ghost want = stacked(c, (d + 1) as nat);
        let ghost base = was.todo;
        let n: usize = left.len();
        assert(base + want.take(0) =~= base);
        while left.len() > 0
            invariant
                n == c.len(),
                left@.len() <= n,
                d < MAX_TRAVERSE_DEPTH,
                views(left@) == c.take(left@.len() as int),
                want == stacked(c, (d + 1) as nat),
                todo_views(self.todo@) == base + want.take(n - left@.len()),
                views(self.out@) == was.out,
                self.wanted@ == was.wanted,
                self.open is None,
            decreases left@.len(),
        {
            let ghost had = left@;
            let ghost k = (n - left@.len()) as int;
            assert(views(had)[had.len() - 1] == c[had.len() - 1]);
            let e = match left.pop() {
                Some(e) => e,
                None => {
                    assert(false);
                    return ;
                },
            };
            assert(e@ == c[had.len() - 1]);
            proof {
                lemma_todo_push(self.todo@, (e, (d + 1) as u8));
            }
            self.todo.push((e, d + 1));
            assert(want[k] == (c[c.len() - 1 - k], (d + 1) as nat));
            assert(want.take(k + 1) =~= want.take(k).push(want[k]));
            assert(base + want.take(k + 1) =~= (base + want.take(k)).push(want[k]));
            assert(views(left@) =~= c.take(left@.len() as int));
        }
        assert(want.take(n as int) =~= want);
        assert(self@.todo =~= base + want);
        assert forall|i: int| 0 <= i < self@.todo.len() implies (#[trigger] self@.todo[i]).1
            <= MAX_TRAVERSE_DEPTH by {
            if i < base.len() {
                assert(self@.todo[i] == was.todo[i]);
            }
        }
    }

    /// The elements found so far.
    pub fn finish(self) -> (r: Vec<ElementNode>)
        ensures
            views(r@) == self@.out,
    {
        self.out
    }
}

// ---------------------------------------------------------------------------
// What a walk finds
// ---------------------------------------------------------------------------
/// A tree as it is read: an element and what lies below it, unless that cannot be
/// read.
pub struct Tree {
    pub at: ElementView,
    pub below: Option<Seq<Tree>>,
}

/// The number of elements of a tree.
pub open spec fn size(t: Tree) -> nat
    decreases t,
{
    match t.below {
        None => 1,
        Some(ts) => 1 + sizes(ts),
    }
}

/// The number of elements of trees.
pub open spec fn sizes(ts: Seq<Tree>) -> nat
    decreases ts,
{
    if ts.len() == 0 {
        0
    } else {
        sizes(ts.drop_last()) + size(ts.last())
    }
}

/// The elements of a tree that are wanted, each before those below it and after
/// those before it, down to the greatest depth.
pub open spec fn wanted_in(t: Tree, w: WantedView, depth: nat) -> Seq<ElementView>
    decreases t,
{
    if depth > MAX_TRAVERSE_DEPTH {
        Seq::empty()
    } else {
        let here = if w.accepts(t.at) {
            seq![t.at]
        } else {
            Seq::empty()
        };
        match t.below {
            None => here,
            Some(ts) => here + wanted_in_all(ts, w, depth + 1),
        }
    }
}

/// The elements of trees that are wanted, tree by tree.
pub open spec fn wanted_in_all(ts: Seq<Tree>, w: WantedView, depth: nat) -> Seq<ElementView>
    decreases ts,
{
    if ts.len() == 0 {
        Seq::empty()
    } else {
        wanted_in_all(ts.drop_last(), w, depth) + wanted_in(ts.last(), w, depth)
    }
}

/// What reading the children of a tree's element gives.
pub open spec fn answer(t: Tree) -> Option<Seq<ElementView>> {
    match t.below {
        None => None,
        Some(ts) => Some(Seq::new(ts.len(), |i: int| ts[i].at)),
    }
}

/// The trees of the elements to look at.
pub open spec fn tops(f: Seq<(Tree, nat)>) -> Seq<(ElementView, nat)> {
    Seq::new(f.len(), |i: int| (f[i].0.at, f[i].1))
}

/// The trees to look at once the last one's element has been looked at.
pub open spec fn opened(f: Seq<(Tree, nat)>) -> Seq<(Tree, nat)> {
    let (t, d) = f.last();
    match t.below {
        Some(ts) => if d < MAX_TRAVERSE_DEPTH {
            f.drop_last() + Seq::new(ts.len(), |i: int| (ts[ts.len() - 1 - i], d + 1))
        } else {
            f.drop_last()
        },
        None => f.drop_last(),
    }
}

/// All wanted elements of the trees to look at, in the order of the search.
pub open spec fn wanted_in_stack(f: Seq<(Tree, nat)>, w: WantedView) -> Seq<ElementView>
    decreases f.len(),
{
    if f.len() == 0 {
        Seq::empty()
    } else {
        wanted_in(f.last().0, w, f.last().1) + wanted_in_stack(f.drop_last(), w)
    }
}

/// The number of elements of the trees to look at.
pub open spec fn stack_size(f: Seq<(Tree, nat)>) -> nat
    decreases f.len(),
{
    if f.len() == 0 {
        0
    } else {
        stack_size(f.drop_last()) + size(f.last().0)
    }
}

proof fn lemma_stack_size_append(f: Seq<(Tree, nat)>, g: Seq<(Tree, nat)>)
    ensures
        stack_size(f + g) == stack_size(f) + stack_size(g),
    decreases g.len(),
{
    if g.len() == 0 {
        assert(f + g =~= f);
    } else {
        lemma_stack_size_append(f, g.drop_last());
        assert((f + g).drop_last() =~= f + g.drop_last());
    }
}

proof fn lemma_wanted_append(f: Seq<(Tree, nat)>, g: Seq<(Tree, nat)>, w: WantedView)
    ensures
        wanted_in_stack(f + g, w) == wanted_in_stack(g, w) + wanted_in_stack(f, w),
    decreases g.len(),
{
    if g.len() == 0 {
        assert(f + g =~= f);
        assert(wanted_in_stack(g, w) + wanted_in_stack(f, w) =~= wanted_in_stack(f, w));
    } else {
        lemma_wanted_append(f, g.drop_last(), w);
        assert((f + g).drop_last() =~= f + g.drop_last());
        let a = wanted_in(g.last().0, w, g.last().1);
        assert(a + (wanted_in_stack(g.drop_last(), w) + wanted_in_stack(f, w)) =~= (a
            + wanted_in_stack(g.drop_last(), w)) + wanted_in_stack(f, w));
    }
}

/// The children of an element on the stack, first child on top.
spec fn kids(ts: Seq<Tree>, d: nat) -> Seq<(Tree, nat)> {
    Seq::new(ts.len(), |i: int| (ts[ts.len() - 1 - i], d))
}

proof fn lemma_kids(ts: Seq<Tree>, w: WantedView, d: nat)
    ensures
        wanted_in_stack(kids(ts, d), w) == wanted_in_all(ts, w, d),
        stack_size(kids(ts, d)) == sizes(ts),
    decreases ts.len(),
{
    let k = kids(ts, d);
    if ts.len() == 0 {
        assert(k =~= Seq::<(Tree, nat)>::empty());
    } else {
        let front = ts.drop_last();
        let last = seq![(ts.last(), d)];
        lemma_kids(front, w, d);
        assert(k =~= last + kids(front, d));
        lemma_wanted_append(last, kids(front, d), w);
        lemma_stack_size_append(last, kids(front, d));
        assert(last.drop_last() =~= Seq::<(Tree, nat)>::empty());
        assert(wanted_in_stack(last.drop_last(), w) =~= Seq::<ElementView>::empty());
        assert(wanted_in_stack(last, w) =~= wanted_in(ts.last(), w, d));
        assert(stack_size(last.drop_last()) == 0);
    }
}

proof fn lemma_too_deep(ts: Seq<Tree>, w: WantedView, d: nat)
    requires
        d > MAX_TRAVERSE_DEPTH,
    ensures
        wanted_in_all(ts, w, d) == Seq::<ElementView>::empty(),
    decreases ts.len(),
{
    if ts.len() > 0 {
        lemma_too_deep(ts.drop_last(), w, d);
        assert(wanted_in(ts.last(), w, d) == Seq::<ElementView>::empty());
        assert(wanted_in_all(ts, w, d) =~= Seq::<ElementView>::empty());
    }
}

/// A step of a walk through trees: it asks for the children of the next tree's
/// element, and with the answer nothing that is wanted gets lost, comes twice or
/// changes its place. Each step leaves fewer elements to look at.
pub proof fn law_step_keeps_what_is_wanted(w: WalkView, f: Seq<(Tree, nat)>)
    requires
        w.todo == tops(f),
        w.wf(),
        !w.over(),
    ensures
        ({
            let (asked, e) = w.advance();
            let next = asked.fed(answer(f.last().0));
            &&& e == Some(f.last().0.at)
            &&& next.todo == tops(opened(f))
            &&& next.wanted == w.wanted
            &&& next.out + wanted_in_stack(opened(f), w.wanted) == w.out + wanted_in_stack(
                f,
                w.wanted,
            )
            &&& stack_size(opened(f)) < stack_size(f)
        }),
{
    let (t, d) = f.last();
    let rest = f.drop_last();
    assert(w.todo.last() == (t.at, d));
    let (asked, e) = w.advance();
    let next = asked.fed(answer(t));
    let here = if w.wanted.accepts(t.at) {
        seq![t.at]
    } else {
        Seq::<ElementView>::empty()
    };
    assert(asked.out =~= w.out + here);
    assert(asked.todo =~= tops(rest));
    match t.below {
        None => {
            assert(w.out + wanted_in_stack(f, w.wanted) =~= (w.out + here) + wanted_in_stack(
                rest,
                w.wanted,
            ));
        },
        Some(ts) => {
            let k = kids(ts, d + 1);
            lemma_kids(ts, w.wanted, d + 1);
            if d < MAX_TRAVERSE_DEPTH {
                assert(opened(f) =~= rest + k);
                lemma_wanted_append(rest, k, w.wanted);
                lemma_stack_size_append(rest, k);
                assert(next.todo =~= tops(opened(f)));
                assert(w.out + wanted_in_stack(f, w.wanted) =~= (w.out + here) + (wanted_in_all(
                    ts,
                    w.wanted,
                    d + 1,
                ) + wanted_in_stack(rest, w.wanted)));
            } else {
                lemma_too_deep(ts, w.wanted, d + 1);
                assert(w.out + wanted_in_stack(f, w.wanted) =~= (w.out + here) + wanted_in_stack(
                    rest,
                    w.wanted,
                ));
            }
        },
    }
}

/// A walk as it goes on over trees until it is over: what it has found then.
pub open spec fn walked(w: WalkView, f: Seq<(Tree, nat)>, steps: nat) -> WalkView
    decreases steps,
{
    if w.over() || steps == 0 || f.len() == 0 {
        w
    } else {
        walked(w.advance().0.fed(answer(f.last().0)), opened(f), (steps - 1) as nat)
    }
}

proof fn lemma_walked(w: WalkView, f: Seq<(Tree, nat)>, steps: nat)
    requires
        w.todo == tops(f),
        w.wf(),
        steps >= stack_size(f),
        w.wanted is Semantic ==> w.out.len() <= MAX_SEARCH_RESULTS,
    ensures
        walked(w, f, steps).over(),
        walked(w, f, steps).out == w.wanted.cut(w.out + wanted_in_stack(f, w.wanted)),
    decreases steps,
{
    if w.over() {
        if f.len() == 0 {
            assert(w.out + wanted_in_stack(f, w.wanted) =~= w.out);
        } else {
            assert(w.wanted.cut(w.out + wanted_in_stack(f, w.wanted)) =~= w.out);
        }
    } else {
        assert(f.len() > 0);
        law_step_keeps_what_is_wanted(w, f);
        let asked = w.advance().0;
        let next = asked.fed(answer(f.last().0));
        assert(next.wf()) by {
            assert forall|i: int| 0 <= i < next.todo.len() implies (#[trigger] next.todo[i]).1
                <= MAX_TRAVERSE_DEPTH by {
                if i < asked.todo.len() {
                    assert(next.todo[i] == w.todo[i]);
                }
            }
        }
        assert(w.todo.last().1 <= MAX_TRAVERSE_DEPTH);
        lemma_walked(next, opened(f), (steps - 1) as nat);
    }
}

/// A walk that is answered from a tree comes to its end, and has then found
/// exactly the wanted elements of the tree in their order: for a search by role
/// and name the first of them, up to the greatest number.
pub proof fn law_walk_finds_the_wanted(t: Tree, w: WantedView)
    ensures
        ({
            let end = walked(WalkView::start(t.at, w), seq![(t, 0)], size(t));
            end.over() && end.out == w.cut(wanted_in(t, w, 0))
        }),
{
    let f = seq![(t, 0nat)];
    let s = WalkView::start(t.at, w);
    assert(f.drop_last() =~= Seq::<(Tree, nat)>::empty());
    assert(stack_size(f.drop_last()) == 0);
    assert(wanted_in_stack(f.drop_last(), w) =~= Seq::<ElementView>::empty());
    assert(s.todo =~= tops(f));
    lemma_walked(s, f, size(t));
    assert(s.out + wanted_in_stack(f, w) =~= wanted_in(t, w, 0));
}

// ---------------------------------------------------------------------------
// All windows
// ---------------------------------------------------------------------------
/// What is to be read next.
#[derive(Debug)]
pub enum Ask {
    /// The element for a window.
    Element(WindowNode),
    /// The children of an element.
    Children(ElementNode),
    /// Nothing: this is what was found.
    Done(Result<Vec<ElementNode>, AgentShellError>),
}

/// What is to be read next.
#[verifier::ext_equal]
pub enum AskView {
    Element(WindowNodeView),
    Children(ElementView),
    Done(Result<Seq<ElementView>, ErrorView>),
}

impl View for Ask {
    type V = AskView;

    open spec fn view(&self) -> AskView {
        match *self {
            Ask::Element(w) => AskView::Element(w@),
            Ask::Children(e) => AskView::Children(e@),
            Ask::Done(Ok(v)) => AskView::Done(Ok(views(v@))),
            Ask::Done(Err(e)) => AskView::Done(Err(e@)),
        }
    }
}

/// How far a search has come.
#[derive(Debug)]
enum Stage {
    /// The windows are being read.
    Windows,
    /// The element for a window is being read.
    Element,
    /// Surrounding elements are searched for.
    Around(Walk),
    /// The elements themselves are searched for; these surrounding elements
    /// remain, the next one last.
    Inside(Walk, Vec<ElementNode>),
    /// The search is over.
    Over,
}

/// How far a search has come.
#[verifier::ext_equal]
pub enum StageView {
    Windows,
    Element,
    Around(WalkView),
    Inside(WalkView, Seq<ElementView>),
    Over,
}

/// A search through all windows.
#[derive(Debug)]
pub struct Search {
    query: Query,
    /// Windows that remain, the next one last.
    windows: Vec<WindowNode>,
    stage: Stage,
    results: Vec<ElementNode>,
}

/// What a search has done and has to do. Windows and surrounding elements that
/// remain stand in the order in which they are taken.
#[verifier::ext_equal]
pub struct SearchView {
    pub query: QueryView,
    pub windows: Seq<WindowNodeView>,
    pub stage: StageView,
    pub results: Seq<ElementView>,
}

impl Search {
    closed spec fn stage_view(self) -> StageView {
        match self.stage {
            Stage::Windows => StageView::Windows,
            Stage::Element => StageView::Element,
            Stage::Around(w) => StageView::Around(w@),
            Stage::Inside(w, rest) => StageView::Inside(w@, views(rest@).reverse()),
            Stage::Over => StageView::Over,
        }
    }
}

impl View for Search {
    type V = SearchView;

    closed spec fn view(&self) -> SearchView {
        SearchView {
            query: self.query@,
            windows: views(self.windows@).reverse(),
            stage: self.stage_view(),
            results: views(self.results@),
        }
    }
}

impl SearchView {
    /// The walk under way stays within its depth, and no more is kept than is
    /// returned.
    pub open spec fn wf(self) -> bool {
        &&& match self.stage {
            StageView::Around(w) => w.wf(),
            StageView::Inside(w, _) => w.wf(),
            _ => true,
        }
        &&& self.query is Semantic ==> self.results.len() <= MAX_SEARCH_RESULTS
    }

    /// The search for `query` before anything was read.
    pub open spec fn start(query: QueryView) -> SearchView {
        SearchView {
            query,
            windows: Seq::empty(),
            stage: StageView::Windows,
            results: Seq::empty(),
        }
    }

    /// The search has come to an end with this outcome.
    pub open spec fn over(self, outcome: Result<Seq<ElementView>, ErrorView>) -> (
        SearchView,
        AskView,
    ) {
        (SearchView { stage: StageView::Over, ..self }, AskView::Done(outcome))
    }

    /// Goes on with the next window, or ends.
    pub open spec fn next_window(self) -> (SearchView, AskView) {
        if self.windows.len() == 0 {
            self.over(Ok(self.results))
        } else {
            (
                SearchView { windows: self.windows.skip(1), stage: StageView::Element, ..self },
                AskView::Element(self.windows[0]),
            )
        }
    }

    /// Goes on inside the next of the surrounding elements, or with the next
    /// window.
    pub open spec fn next_inside(self, rest: Seq<ElementView>) -> (SearchView, AskView) {
        if rest.len() == 0 {
            self.next_window()
        } else {
            let w = WalkView::start(rest[0], self.query.target()).advance().0;
            (
                SearchView { stage: StageView::Inside(w, rest.skip(1)), ..self },
                AskView::Children(rest[0]),
            )
        }
    }

    /// Adds what was found, as far as it is returned.
    pub open spec fn with_found(self, found: Seq<ElementView>) -> SearchView {
        SearchView { results: self.query.target().cut(self.results + found), ..self }
    }

    /// Goes on with the walk under way, and with what follows once it is over.
    pub open spec fn resume(self) -> (SearchView, AskView) {
        match self.stage {
            StageView::Around(w) => match w.advance() {
                (v, Some(e)) => (
                    SearchView { stage: StageView::Around(v), ..self },
                    AskView::Children(e),
                ),
                (v, None) => self.next_inside(v.out),
            },
            StageView::Inside(w, rest) => match w.advance() {
                (v, Some(e)) => (
                    SearchView { stage: StageView::Inside(v, rest), ..self },
                    AskView::Children(e),
                ),
                (v, None) => {
                    let s = self.with_found(v.out);
                    if self.query.target().enough(s.results.len()) {
                        s.over(Ok(s.results))
                    } else {
                        s.next_inside(rest)
                    }
                },
            },
            _ => self.over(Ok(self.results)),
        }
    }

    /// Takes in the windows.
    pub open spec fn on_windows(self, r: Result<Seq<WindowNodeView>, ErrorView>) -> (
        SearchView,
        AskView,
    ) {
        match r {
            Err(e) => self.over(Err(e)),
            Ok(ws) => SearchView { windows: ws, ..self }.next_window(),
        }
    }

    /// Takes in the element for a window.
    pub open spec fn on_element(self, r: Result<ElementView, ErrorView>) -> (SearchView, AskView) {
        match r {
            Err(e) => self.over(Err(e)),
            Ok(el) => match self.query.around() {
                Some(w) => SearchView {
                    stage: StageView::Around(WalkView::start(el, w)),
                    ..self
                }.resume(),
                None => SearchView {
                    stage: StageView::Inside(
                        WalkView::start(el, self.query.target()),
                        Seq::empty(),
                    ),
                    ..self
                }.resume(),
            },
        }
    }

    /// Takes in the children of an element. Where elements are searched for by
    /// their path a failed reading ends the search: it must not look as if there
    /// were nothing.
    pub open spec fn on_children(self, r: Result<Seq<ElementView>, ErrorView>) -> (
        SearchView,
        AskView,
    ) {
        let c = match r {
            Ok(v) => Some(v),
            Err(_) => None,
        };
        if r is Err && self.query is Path {
            self.over(Err(r->Err_0))
        } else {
            SearchView {
                stage: match self.stage {
                    StageView::Around(w) => StageView::Around(w.fed(c)),
                    StageView::Inside(w, rest) => StageView::Inside(w.fed(c), rest),
                    s => s,
                },
                ..self
            }.resume()
        }
    }
}

/// The view of what came of reading a list.
pub open spec fn list_result<T: View>(r: Result<Vec<T>, AgentShellError>) -> Result<
    Seq<T::V>,
    ErrorView,
> {
    match r {
        Ok(v) => Ok(views(v@)),
        Err(e) => Err(e@),
    }
}

/// The view of what came of reading one item.
pub open spec fn item_result<T: View>(r: Result<T, AgentShellError>) -> Result<T::V, ErrorView> {
    match r {
        Ok(v) => Ok(v@),
        Err(e) => Err(e@),
    }
}

proof fn lemma_views_reverse_pop<T: View>(s: Seq<T>)
    requires
        s.len() > 0,
    ensures
        views(s).reverse().len() == s.len(),
        views(s).reverse()[0] == s.last()@,
        views(s.drop_last()).reverse() == views(s).reverse().skip(1),
{
    assert(views(s.drop_last()).reverse() =~= views(s).reverse().skip(1));
}

fn reversed_windows(v: Vec<WindowNode>) -> (r: Vec<WindowNode>)
    ensures
        views(r@).reverse() == views(v@),
{
    let mut left = v;
    let mut out: Vec<WindowNode> = Vec::new();
    let ghost all = views(left@);
    let ghost n = left@.len();
    while left.len() > 0
        invariant
            n == all.len(),
            out@.len() + left@.len() == n,
            views(left@) == all.take(left@.len() as int),
            views(out@).reverse() == all.skip(left@.len() as int),
        decreases left@.len(),
    {
        let ghost had = left@;
        let ghost got = out@;
        assert(views(had)[had.len() - 1] == all[had.len() - 1]);
        if let Some(w) = left.pop() {
            out.push(w);
            assert(w@ == all[had.len() - 1]);
        }
        assert(views(left@) =~= all.take(left@.len() as int));
        assert(views(out@).reverse() =~= seq![all[had.len() - 1]] + views(got).reverse());
        assert(all.skip(left@.len() as int) =~= seq![all[had.len() - 1]] + all.skip(
            had.len() as int,
        ));
    }
    assert(all.skip(0) =~= all);
    out
}

fn reversed_elements(v: Vec<ElementNode>) -> (r: Vec<ElementNode>)
    ensures
        views(r@).reverse() == views(v@),
{
    let mut left = v;
    let mut out: Vec<ElementNode> = Vec::new();
    let ghost all = views(left@);
    let ghost n = left@.len();
    while left.len() > 0
        invariant
            n == all.len(),
            out@.len() + left@.len() == n,
            views(left@) == all.take(left@.len() as int),
            views(out@).reverse() == all.skip(left@.len() as int),
        decreases left@.len(),
    {
        let ghost had = left@;
        let ghost got = out@;
        assert(views(had)[had.len() - 1] == all[had.len() - 1]);
        if let Some(w) = left.pop() {
            out.push(w);
            assert(w@ == all[had.len() - 1]);
        }
        assert(views(left@) =~= all.take(left@.len() as int));
        assert(views(out@).reverse() =~= seq![all[had.len() - 1]] + views(got).reverse());
        assert(all.skip(left@.len() as int) =~= seq![all[had.len() - 1]] + all.skip(
            had.len() as int,
        ));
    }
    assert(all.skip(0) =~= all);
    out
}

/// Adds what was found, as far as it is returned.
fn add_found(out: &mut Vec<ElementNode>, found: &Vec<ElementNode>, wanted: &Wanted)
    requires
        wanted@ is Semantic ==> old(out)@.len() <= MAX_SEARCH_RESULTS,
    ensures
        views(final(out)@) == wanted@.cut(views(old(out)@) + views(found@)),
{
    broadcast use lemma_views_push;

    let ghost base = views(out@);
    let ghost new = views(found@);
    let mut i: usize = 0;
    assert(base + new.take(0) =~= base);
    while i < found.len() && !wanted.enough(out.len())
        invariant
            i <= found.len(),
            new == views(found@),
            views(out@) == base + new.take(i as int),
            wanted@ is Semantic ==> out@.len() <= MAX_SEARCH_RESULTS,
        decreases found.len() - i,
    {
        let ghost had = views(out@);
        out.push(found[i].clone());
        assert(views(out@) == had.push(new[i as int]));
        assert(new.take(i as int + 1) =~= new.take(i as int).push(new[i as int]));
        assert(base + new.take(i as int + 1) =~= (base + new.take(i as int)).push(new[i as int]));
        i = i + 1;
    }
    if i == found.len() {
        assert(new.take(i as int) =~= new);
        assert(views(out@).len() == out@.len());
    } else {
        assert(views(out@).len() == MAX_SEARCH_RESULTS);
        assert((base + new).take(MAX_SEARCH_RESULTS as int) =~= base + new.take(i as int));
    }
}

impl Search {
    /// A search for `query`; the windows are to be read first.
    pub fn new(query: Query) -> (r: Search)
        ensures
            r@ == SearchView::start(query@),
            r@.wf(),
    {
        let r = Search {
            query,
            windows: Vec::new(),
            stage: Stage::Windows,
            results: Vec::new(),
        };
        assert(r@.windows =~= Seq::<WindowNodeView>::empty());
        assert(r@.results =~= Seq::<ElementView>::empty());
        r
    }

    fn end(&mut self) -> (r: Ask)
        requires
            old(self)@.wf(),
        ensures
            (final(self)@, r@) == old(self)@.over(Ok(old(self)@.results)),
            final(self)@.wf(),
    {
        let out = copy_elements(&self.results);
        self.stage = Stage::Over;
        Ask::Done(Ok(out))
    }

    fn fail(&mut self, e: AgentShellError) -> (r: Ask)
        requires
            old(self)@.wf(),
        ensures
            (final(self)@, r@) == old(self)@.over(Err(e@)),
            final(self)@.wf(),
    {
        self.stage = Stage::Over;
        Ask::Done(Err(e))
    }

    fn next_window(&mut self) -> (r: Ask)
        requires
            old(self)@.wf(),
        ensures
            (final(self)@, r@) == old(self)@.next_window(),
            final(self)@.wf(),
    {
        if self.windows.len() == 0 {
            return self.end();
        }
        proof {
            lemma_views_reverse_pop(self.windows@);
        }
        match self.windows.pop() {
            Some(w) => {
                self.stage = Stage::Element;
                Ask::Element(w)
            },
            None => {
                assert(false);
                self.end()
            },
        }
    }

    fn next_inside(&mut self, rest: Vec<ElementNode>) -> (r: Ask)
        requires
            old(self)@.wf(),
        ensures
            (final(self)@, r@) == old(self)@.next_inside(views(rest@).reverse()),
            final(self)@.wf(),
    {
        let mut rest = rest;
        if rest.len() == 0 {
            return self.next_window();
        }
        proof {
            lemma_views_reverse_pop(rest@);
        }
        match rest.pop() {
            Some(e) => {
                let mut w = Walk::new(&e, self.query.target());
                let ghost fresh = w@;
                let first = w.advance();
                assert(fresh.todo.last() == (e@, 0nat));
                self.stage = Stage::Inside(w, rest);
                match first {
                    Some(e) => Ask::Children(e),
                    None => {
                        assert(false);
                        self.end()
                    },
                }
            },
            None => {
                assert(false);
                self.end()
            },
        }
    }

    fn resume(&mut self) -> (r: Ask)
        requires
            old(self)@.wf(),
        ensures
            (final(self)@, r@) == old(self)@.resume(),
            final(self)@.wf(),
    {
        let ghost was = self@;
        let mut stage = Stage::Over;
        std::mem::swap(&mut stage, &mut self.stage);
        match stage {
            Stage::Around(mut w) => {
                match w.advance() {
                    Some(e) => {
                        self.stage = Stage::Around(w);
                        Ask::Children(e)
                    },
                    None => {
                        let parents = reversed_elements(w.finish());
                        let ghost bare = self@;
                        let r = self.next_inside(parents);
                        assert((self@, r@) == was.resume());
                        r
                    },
                }
            },
            Stage::Inside(mut w, rest) => {
                match w.advance() {
                    Some(e) => {
                        self.stage = Stage::Inside(w, rest);
                        Ask::Children(e)
                    },
                    None => {
                        let found = w.finish();
                        let wanted = self.query.target();
                        assert(was.results == views(self.results@));
                        assert(was.results.len() == self.results@.len());
                        add_found(&mut self.results, &found, &wanted);
                        assert(views(self.results@).len() == self.results@.len());
                        if wanted.enough(self.results.len()) {
                            self.end()
                        } else {
                            self.next_inside(rest)
                        }
                    },
                }
            },
            _ => self.end(),
        }
    }

    /// Takes in the windows.
    pub fn on_windows(&mut self, r: Result<Vec<WindowNode>, AgentShellError>) -> (ask: Ask)
        requires
            old(self)@.wf(),
        ensures
            (final(self)@, ask@) == old(self)@.on_windows(list_result(r)),
            final(self)@.wf(),
    {
        match r {
            Err(e) => self.fail(e),
            Ok(ws) => {
                self.windows = reversed_windows(ws);
                self.next_window()
            },
        }
    }

    /// Takes in the element for the window that was asked for.
    pub fn on_element(&mut self, r: Result<ElementNode, AgentShellError>) -> (ask: Ask)
        requires
            old(self)@.wf(),
        ensures
            (final(self)@, ask@) == old(self)@.on_element(item_result(r)),
            final(self)@.wf(),
    {
        match r {
            Err(e) => self.fail(e),
            Ok(el) => {
                match self.query.around() {
                    Some(w) => {
                        self.stage = Stage::Around(Walk::new(&el, w));
                    },
                    None => {
                        let none: Vec<ElementNode> = Vec::new();
                        assert(views(none@).reverse() =~= Seq::<ElementView>::empty());
                        let target = self.query.target();
                        self.stage = Stage::Inside(Walk::new(&el, target), none);
                    },
                }
                self.resume()
            },
        }
    }

    /// Takes in the children of the element that was asked for.
    pub fn on_children(&mut self, r: Result<Vec<ElementNode>, AgentShellError>) -> (ask: Ask)
        requires
            old(self)@.wf(),
        ensures
            (final(self)@, ask@) == old(self)@.on_children(list_result(r)),
            final(self)@.wf(),
    {
        let by_path = matches!(self.query, Query::Path { .. });
        match r {
            Err(e) => {
                if by_path {
                    return self.fail(e);
                }
                self.feed(Err(e));
                self.resume()
            },
            Ok(v) => {
                self.feed(Ok(v));
                self.resume()
            },
        }
    }

    fn feed(&mut self, r: Result<Vec<ElementNode>, AgentShellError>)
        requires
            old(self)@.wf(),
        ensures
            final(self)@ == (SearchView {
                stage: match old(self)@.stage {
                    StageView::Around(w) => StageView::Around(w.fed(read_views(r))),
                    StageView::Inside(w, rest) => StageView::Inside(w.fed(read_views(r)), rest),
                    s => s,
                },
                ..old(self)@
            }),
            final(self)@.wf(),
    {
        let mut stage = Stage::Over;
        std::mem::swap(&mut stage, &mut self.stage);
        self.stage = match stage {
            Stage::Around(mut w) => {
                w.feed(r);
                Stage::Around(w)
            },
            Stage::Inside(mut w, rest) => {
                w.feed(r);
                Stage::Inside(w, rest)
            },
            s => s,
        };
    }
}

/// Copies of the elements.
pub fn copy_elements(v: &Vec<ElementNode>) -> (r: Vec<ElementNode>)
    ensures
        views(r@) == views(v@),
{
    broadcast use lemma_views_push;

    let mut out: Vec<ElementNode> = Vec::new();
    let mut i: usize = 0;
    while i < v.len()
        invariant
            i <= v.len(),
            views(out@) == views(v@).take(i as int),
        decreases v.len() - i,
    {
        let ghost had = views(out@);
        out.push(v[i].clone());
        assert(views(out@) == had.push(views(v@)[i as int]));
        i = i + 1;
        assert(views(out@) =~= views(v@).take(i as int));
    }
    assert(views(v@).take(i as int) =~= views(v@));
    out
}

/// The greatest number holds for the whole search: what two windows give is cut
/// as if it had been found in one.
pub proof fn law_cap_is_global(
    s: SearchView,
    a: Seq<ElementView>,
    b: Seq<ElementView>,
)
    requires
        s.query is Semantic,
        s.results.len() <= MAX_SEARCH_RESULTS,
    ensures
        s.with_found(a).with_found(b).results == s.query.target().cut(s.results + a + b),
        s.with_found(a).with_found(b).results.len() <= MAX_SEARCH_RESULTS,
{
    let one = s.with_found(a).results;
    assert(s.with_found(a).with_found(b).results =~= s.query.target().cut(s.results + a + b));
}

/// A search by role and name never returns more than the greatest number.
pub proof fn law_outcome_is_bounded(s: SearchView)
    requires
        s.wf(),
        s.query is Semantic,
    ensures
        s.resume().1 matches AskView::Done(Ok(found)) ==> found.len() <= MAX_SEARCH_RESULTS,
{
}

/// A failed reading during a search by path is reported as it is.
pub proof fn law_failed_reading_is_reported(s: SearchView, e: ErrorView)
    requires
        s.query is Path,
    ensures
        s.on_children(Err(e)).1 == AskView::Done(Err::<Seq<ElementView>, ErrorView>(e)),
{
}

// ---------------------------------------------------------------------------
// What a search finds
// ---------------------------------------------------------------------------
/// A desktop as it is read: what reading the element for a window gives, and what
/// reading the children of an element gives.
pub struct Desktop {
    pub element: spec_fn(WindowNodeView) -> Result<ElementView, ErrorView>,
    pub children: spec_fn(ElementView) -> Result<Seq<ElementView>, ErrorView>,
}

impl Desktop {
    /// The tree below an element that lies at a depth, as far as it is searched.
    pub open spec fn tree(self, e: ElementView, depth: nat) -> Tree
        decreases MAX_TRAVERSE_DEPTH + 2 - depth, 0nat,
    {
        Tree {
            at: e,
            below: if depth > MAX_TRAVERSE_DEPTH {
                None
            } else {
                match (self.children)(e) {
                    Ok(c) => Some(self.trees(c, depth + 1)),
                    Err(_) => None,
                }
            },
        }
    }

    /// The trees below elements that lie at a depth.
    pub open spec fn trees(self, c: Seq<ElementView>, depth: nat) -> Seq<Tree>
        decreases MAX_TRAVERSE_DEPTH + 2 - depth, c.len(),
    {
        if c.len() == 0 {
            Seq::empty()
        } else {
            self.trees(c.drop_last(), depth).push(self.tree(c.last(), depth))
        }
    }

    /// The elements below `e`, and `e` itself, that are wanted.
    pub open spec fn wanted_below(self, e: ElementView, w: WantedView) -> Seq<ElementView> {
        wanted_in(self.tree(e, 0), w, 0)
    }

    /// What is wanted below elements, one after the other.
    pub open spec fn wanted_below_all(self, es: Seq<ElementView>, w: WantedView) -> Seq<ElementView>
        decreases es.len(),
    {
        if es.len() == 0 {
            Seq::empty()
        } else {
            self.wanted_below(es[0], w) + self.wanted_below_all(es.skip(1), w)
        }
    }

    /// What is searched for in the window with the element `e`: anywhere in it, or
    /// inside the surrounding elements where there have to be such.
    pub open spec fn in_window(self, e: ElementView, q: QueryView) -> Seq<ElementView> {
        match q.around() {
            None => self.wanted_below(e, q.target()),
            Some(p) => self.wanted_below_all(p.cut(self.wanted_below(e, p)), q.target()),
        }
    }

    /// What is searched for in windows, one after the other.
    pub open spec fn in_windows(self, ws: Seq<WindowNodeView>, q: QueryView) -> Seq<ElementView>
        decreases ws.len(),
    {
        if ws.len() == 0 {
            Seq::empty()
        } else {
            self.in_window((self.element)(ws[0])->Ok_0, q) + self.in_windows(ws.skip(1), q)
        }
    }

    /// A search that is answered from the desktop, so many answers later.
    pub open spec fn answered(self, now: (SearchView, AskView), steps: nat) -> (SearchView, AskView)
        decreases steps,
    {
        if steps == 0 {
            now
        } else {
            match now.1 {
                AskView::Element(w) => self.answered(
                    now.0.on_element((self.element)(w)),
                    (steps - 1) as nat,
                ),
                AskView::Children(e) => self.answered(
                    now.0.on_children((self.children)(e)),
                    (steps - 1) as nat,
                ),
                AskView::Done(_) => now,
            }
        }
    }

    /// Every reading that a search for `q` depends on succeeds: the elements of the
    /// windows, and for a search by path the children of every element.
    pub open spec fn readable(self, ws: Seq<WindowNodeView>, q: QueryView) -> bool {
        &&& forall|i: int| 0 <= i < ws.len() ==> (self.element)(#[trigger] ws[i]) is Ok
        &&& q is Path ==> forall|e: ElementView| (#[trigger] (self.children)(e)) is Ok
    }
}

/// Answers can be given in two parts.
pub proof fn lemma_answered_add(d: Desktop, now: (SearchView, AskView), m: nat, n: nat)
    ensures
        d.answered(now, m + n) == d.answered(d.answered(now, m), n),
    decreases m,
{
    if m > 0 {
        match now.1 {
            AskView::Element(w) => {
                lemma_answered_add(d, now.0.on_element((d.element)(w)), (m - 1) as nat, n);
            },
            AskView::Children(e) => {
                lemma_answered_add(d, now.0.on_children((d.children)(e)), (m - 1) as nat, n);
            },
            AskView::Done(_) => {
                lemma_answered_done(d, now, n);
            },
        }
    }
}

/// A search that is over stays as it is.
pub proof fn lemma_answered_done(d: Desktop, now: (SearchView, AskView), n: nat)
    requires
        now.1 is Done,
    ensures
        d.answered(now, n) == now,
{
}

/// The trees below elements are those of the elements.
pub proof fn lemma_trees(d: Desktop, c: Seq<ElementView>, depth: nat)
    ensures
        d.trees(c, depth).len() == c.len(),
        forall|i: int| 0 <= i < c.len() ==> #[trigger] d.trees(c, depth)[i] == d.tree(c[i], depth),
    decreases c.len(),
{
    if c.len() > 0 {
        lemma_trees(d, c.drop_last(), depth);
    }
}

/// The trees to look at are those of the desktop.
spec fn grown(d: Desktop, f: Seq<(Tree, nat)>) -> bool {
    forall|i: int|
        0 <= i < f.len() ==> (#[trigger] f[i]).1 <= MAX_TRAVERSE_DEPTH && f[i].0 == d.tree(
            f[i].0.at,
            f[i].1,
        )
}

proof fn lemma_opened_grown(d: Desktop, f: Seq<(Tree, nat)>)
    requires
        grown(d, f),
        f.len() > 0,
    ensures
        grown(d, opened(f)),
        answer(f.last().0) == (match (d.children)(f.last().0.at) {
            Ok(c) => Some(c),
            Err(_) => None,
        }),
{
    let (t, depth) = f.last();
    assert(f[f.len() - 1] == (t, depth));
    let rest = f.drop_last();
    assert forall|i: int| 0 <= i < rest.len() implies (#[trigger] rest[i]).1 <= MAX_TRAVERSE_DEPTH
        && rest[i].0 == d.tree(rest[i].0.at, rest[i].1) by {
        assert(rest[i] == f[i]);
    }
    match (d.children)(t.at) {
        Ok(c) => {
            lemma_trees(d, c, depth + 1);
            let ts = d.trees(c, depth + 1);
            assert(t.below == Some(ts));
            assert(answer(t)->0 =~= c);
            let g = opened(f);
            assert forall|i: int| 0 <= i < g.len() implies (#[trigger] g[i]).1
                <= MAX_TRAVERSE_DEPTH && g[i].0 == d.tree(g[i].0.at, g[i].1) by {
                if i < rest.len() {
                    assert(g[i] == rest[i]);
                } else {
                    let k = ts.len() - 1 - (i - rest.len());
                    assert(g[i] == (ts[k], depth + 1));
                    assert(ts[k] == d.tree(c[k], depth + 1));
                }
            }
        },
        Err(_) => {
            assert(t.below is None);
            assert(opened(f) =~= rest);
        },
    }
}

impl SearchView {
    /// The walk under way.
    spec fn walk(self) -> WalkView {
        match self.stage {
            StageView::Around(w) => w,
            StageView::Inside(w, _) => w,
            _ => arbitrary(),
        }
    }

    /// A walk is under way.
    spec fn walks(self) -> bool {
        self.stage is Around || self.stage is Inside
    }

    /// The search with another walk under way.
    spec fn walking(self, w: WalkView) -> SearchView {
        SearchView {
            stage: match self.stage {
                StageView::Around(_) => StageView::Around(w),
                StageView::Inside(_, rest) => StageView::Inside(w, rest),
                s => s,
            },
            ..self
        }
    }
}

/// A walk of a search that is answered from the desktop comes to its end.
proof fn lemma_walk_answered(d: Desktop, s: SearchView, f: Seq<(Tree, nat)>) -> (n: nat)
    requires
        s.walks(),
        s.walk().todo == tops(f),
        s.walk().wf(),
        grown(d, f),
        s.query is Path ==> forall|e: ElementView| (#[trigger] (d.children)(e)) is Ok,
    ensures
        d.answered(s.resume(), n) == s.walking(walked(s.walk(), f, stack_size(f))).resume(),
    decreases stack_size(f),
{
    let w = s.walk();
    if w.over() {
        assert(s.walking(w) =~= s);
        0
    } else {
        assert(f.len() > 0) by {
            assert(w.todo.len() == f.len());
        }
        law_step_keeps_what_is_wanted(w, f);
        lemma_opened_grown(d, f);
        let (asked, e) = w.advance();
        let next = asked.fed(answer(f.last().0));
        let s1 = s.walking(asked);
        let s2 = s.walking(next);
        assert(next.wf()) by {
            assert(w.todo.last().1 <= MAX_TRAVERSE_DEPTH);
            assert forall|i: int| 0 <= i < next.todo.len() implies (#[trigger] next.todo[i]).1
                <= MAX_TRAVERSE_DEPTH by {
                if i < asked.todo.len() {
                    assert(next.todo[i] == w.todo[i]);
                }
            }
        }
        assert(s.resume() == (s1, AskView::Children(e->0)));
        assert(s1.on_children((d.children)(e->0)) == s2.resume());
        let m = lemma_walk_answered(d, s2, opened(f));
        lemma_walked_enough(next, opened(f), stack_size(opened(f)), (stack_size(f) - 1) as nat);
        assert(s2.walking(walked(next, opened(f), (stack_size(f) - 1) as nat)) == s.walking(
            walked(w, f, stack_size(f)),
        ));
        m + 1
    }
}

/// More steps than are needed make no difference.
proof fn lemma_walked_enough(w: WalkView, f: Seq<(Tree, nat)>, m: nat, n: nat)
    requires
        w.todo == tops(f),
        w.wf(),
        stack_size(f) <= m <= n,
    ensures
        walked(w, f, m) == walked(w, f, n),
    decreases m,
{
    if !w.over() {
        assert(f.len() > 0) by {
            assert(w.todo.len() == f.len());
        }
        law_step_keeps_what_is_wanted(w, f);
        let asked = w.advance().0;
        let next = asked.fed(answer(f.last().0));
        assert(next.wf()) by {
            assert(w.todo.last().1 <= MAX_TRAVERSE_DEPTH);
            assert forall|i: int| 0 <= i < next.todo.len() implies (#[trigger] next.todo[i]).1
                <= MAX_TRAVERSE_DEPTH by {
                if i < asked.todo.len() {
                    assert(next.todo[i] == w.todo[i]);
                }
            }
        }
        lemma_walked_enough(next, opened(f), (m - 1) as nat, (n - 1) as nat);
    }
}

/// A walk of a search from one element, answered from the desktop.
proof fn lemma_walk_from(d: Desktop, s: SearchView, e: ElementView, w: WantedView) -> (n: nat)
    requires
        s.walks(),
        s.walk() == WalkView::start(e, w),
        s.query is Path ==> forall|x: ElementView| (#[trigger] (d.children)(x)) is Ok,
    ensures
        ({
            let end = walked(WalkView::start(e, w), seq![(d.tree(e, 0), 0)], size(d.tree(e, 0)));
            &&& d.answered(s.resume(), n) == s.walking(end).resume()
            &&& end.over()
            &&& end.out == w.cut(d.wanted_below(e, w))
        }),
{
    let t = d.tree(e, 0);
    let f = seq![(t, 0nat)];
    law_walk_finds_the_wanted(t, w);
    assert(s.walk().todo =~= tops(f));
    assert(f.drop_last() =~= Seq::<(Tree, nat)>::empty());
    assert(stack_size(f.drop_last()) == 0);
    lemma_walk_answered(d, s, f)
}

/// What is cut twice is cut once.
proof fn lemma_cut_cut(w: WantedView, a: Seq<ElementView>, b: Seq<ElementView>, c: Seq<ElementView>)
    ensures
        w.cut(a + w.cut(b)) == w.cut(a + b),
        w.cut(w.cut(a + b) + c) == w.cut(a + (b + c)),
        w.enough(w.cut(a + b).len()) ==> w.cut(a + b) == w.cut(a + (b + c)),
{
    assert(w.cut(a + w.cut(b)) =~= w.cut(a + b));
    assert(w.cut(w.cut(a + b) + c) =~= w.cut(a + (b + c)));
    if w.enough(w.cut(a + b).len()) {
        assert(w.cut(a + b) =~= w.cut(a + (b + c)));
    }
}

/// A search goes on with its windows whatever it did before.
proof fn lemma_next_window_forgets(s: SearchView, stage: StageView)
    ensures
        (SearchView { stage, ..s }).next_window() == s.next_window(),
{
}

/// A search inside surrounding elements: it comes to its end with enough, or goes
/// on with the next window.
proof fn lemma_inside_answered(d: Desktop, s: SearchView, rest: Seq<ElementView>) -> (n: nat)
    requires
        !s.query.target().enough(s.results.len()),
        s.query is Path ==> forall|x: ElementView| (#[trigger] (d.children)(x)) is Ok,
    ensures
        ({
            let all = s.query.target().cut(
                s.results + d.wanted_below_all(rest, s.query.target()),
            );
            if s.query.target().enough(all.len()) {
                d.answered(s.next_inside(rest), n).1 == AskView::Done(Ok(all))
            } else {
                d.answered(s.next_inside(rest), n) == (SearchView {
                    results: all,
                    ..s
                }).next_window()
            }
        }),
    decreases rest.len(),
{
    let target = s.query.target();
    let all = target.cut(s.results + d.wanted_below_all(rest, target));
    if rest.len() == 0 {
        assert(s.results + d.wanted_below_all(rest, target) =~= s.results);
        assert(all =~= s.results);
        assert(SearchView { results: all, ..s } == s);
        0
    } else {
        let more = rest.skip(1);
        let fresh = WalkView::start(rest[0], target);
        let s1 = SearchView { stage: StageView::Inside(fresh, more), ..s };
        assert(s1.resume() == s.next_inside(rest)) by {
            assert(fresh.todo.last() == (rest[0], 0nat));
            assert(!fresh.over());
        }
        let m = lemma_walk_from(d, s1, rest[0], target);
        let end = walked(fresh, seq![(d.tree(rest[0], 0), 0)], size(d.tree(rest[0], 0)));
        let here = d.wanted_below(rest[0], target);
        let later = d.wanted_below_all(more, target);
        lemma_cut_cut(target, s.results, here, later);
        let s2 = s1.walking(end);
        let s3 = s2.with_found(end.out);
        assert(s3.results == target.cut(s.results + here));
        assert(end.advance() == (end, None::<ElementView>));
        if target.enough(s3.results.len()) {
            assert(s2.resume() == s3.over(Ok(s3.results)));
            assert(all == s3.results);
            m
        } else {
            assert(s2.resume() == s3.next_inside(more));
            let k = lemma_inside_answered(d, s3, more);
            lemma_answered_add(d, s.next_inside(rest), m, k);
            assert(target.cut(s3.results + later) == all);
            lemma_next_window_forgets(SearchView { results: all, ..s }, s3.stage);
            m + k
        }
    }
}

/// A search through windows comes to its end.
proof fn lemma_windows_answered(d: Desktop, s: SearchView) -> (n: nat)
    requires
        !s.query.target().enough(s.results.len()),
        d.readable(s.windows, s.query),
    ensures
        d.answered(s.next_window(), n).1 == AskView::Done(
            Ok(s.query.target().cut(s.results + d.in_windows(s.windows, s.query))),
        ),
    decreases s.windows.len(),
{
    let target = s.query.target();
    let all = target.cut(s.results + d.in_windows(s.windows, s.query));
    if s.windows.len() == 0 {
        assert(s.results + d.in_windows(s.windows, s.query) =~= s.results);
        assert(all =~= s.results);
        0
    } else {
        let w = s.windows[0];
        let more = s.windows.skip(1);
        let el = (d.element)(w)->Ok_0;
        assert((d.element)(w) is Ok);
        assert(d.readable(more, s.query)) by {
            assert forall|i: int| 0 <= i < more.len() implies (d.element)(
                #[trigger] more[i],
            ) is Ok by {
                assert(more[i] == s.windows[i + 1]);
            }
        }
        let s1 = SearchView { windows: more, stage: StageView::Element, ..s };
        assert(s.next_window() == (s1, AskView::Element(w)));
        let entered = s1.on_element((d.element)(w));
        let here = d.in_window(el, s.query);
        let later = d.in_windows(more, s.query);
        lemma_cut_cut(target, s.results, here, later);
        let found = target.cut(s.results + here);
        let after = SearchView { results: found, ..s1 };
        let m: nat = match s.query.around() {
            None => {
                let fresh = WalkView::start(el, target);
                let none = Seq::<ElementView>::empty();
                let only = seq![el];
                // The window's element is searched like a surrounding one.
                assert(only.skip(1) =~= none);
                assert(entered == s1.next_inside(only)) by {
                    assert(fresh.todo.last() == (el, 0nat));
                    assert(!fresh.over());
                }
                assert(d.wanted_below_all(none, target) =~= none);
                assert(d.wanted_below_all(only, target) =~= here);
                lemma_inside_answered(d, s1, only)
            },
            Some(p) => {
                let fresh = WalkView::start(el, p);
                let s2 = SearchView { stage: StageView::Around(fresh), ..s1 };
                assert(entered == s2.resume());
                let a = lemma_walk_from(d, s2, el, p);
                let end = walked(fresh, seq![(d.tree(el, 0), 0)], size(d.tree(el, 0)));
                let s3 = s2.walking(end);
                assert(end.advance() == (end, None::<ElementView>));
                assert(s3.resume() == s3.next_inside(end.out));
                let b = lemma_inside_answered(d, s3, end.out);
                lemma_answered_add(d, entered, a, b);
                lemma_next_window_forgets(after, s3.stage);
                a + b
            },
        };
        if target.enough(found.len()) {
            assert(d.answered(s.next_window(), m + 1).1 == AskView::Done(Ok(found)));
            m + 1
        } else {
            assert(d.answered(entered, m) == after.next_window());
            let k = lemma_windows_answered(d, after);
            assert(d.answered(s.next_window(), m + 1) == after.next_window());
            lemma_answered_add(d, s.next_window(), m + 1, k);
            m + 1 + k
        }
    }
}

/// A search that is answered from a desktop comes to its end, and has then found
/// exactly what is wanted, window by window and in the order of the trees: anywhere
/// in a window, or inside the surrounding elements where there have to be such. A
/// search by role and name returns the first of them, up to the greatest number.
pub proof fn law_search_finds_the_wanted(d: Desktop, ws: Seq<WindowNodeView>, q: QueryView)
    requires
        d.readable(ws, q),
    ensures
        exists|n: nat|
            (#[trigger] d.answered(SearchView::start(q).on_windows(Ok(ws)), n)).1 == AskView::Done(
                Ok(q.target().cut(d.in_windows(ws, q))),
            ),
{
    let s = SearchView { windows: ws, ..SearchView::start(q) };
    assert(s.results + d.in_windows(ws, q) =~= d.in_windows(ws, q));
    let n = lemma_windows_answered(d, s);
    assert(d.answered(SearchView::start(q).on_windows(Ok(ws)), n).1 == AskView::Done(
        Ok(q.target().cut(d.in_windows(ws, q))),
    ));
}

proof fn lemma_wanted_is_accepted(t: Tree, w: WantedView, depth: nat, e: ElementView)
    requires
        wanted_in(t, w, depth).contains(e),
    ensures
        w.accepts(e),
    decreases t,
{
    if depth <= MAX_TRAVERSE_DEPTH {
        let here = if w.accepts(t.at) {
            seq![t.at]
        } else {
            Seq::empty()
        };
        match t.below {
            None => {},
            Some(ts) => {
                let i = choose|i: int|
                    0 <= i < wanted_in(t, w, depth).len() && wanted_in(t, w, depth)[i] == e;
                let below = wanted_in_all(ts, w, depth + 1);
                if i >= here.len() {
                    assert(below[i - here.len()] == e);
                    lemma_wanted_is_accepted_all(ts, w, depth + 1, e);
                } else {
                    assert(here[i] == e);
                }
            },
        }
    }
}

proof fn lemma_wanted_is_accepted_all(ts: Seq<Tree>, w: WantedView, depth: nat, e: ElementView)
    requires
        wanted_in_all(ts, w, depth).contains(e),
    ensures
        w.accepts(e),
    decreases ts,
{
    if ts.len() > 0 {
        let front = wanted_in_all(ts.drop_last(), w, depth);
        let last = wanted_in(ts.last(), w, depth);
        let i = choose|i: int| 0 <= i < (front + last).len() && (front + last)[i] == e;
        if i < front.len() {
            assert(front[i] == e);
            lemma_wanted_is_accepted_all(ts.drop_last(), w, depth, e);
        } else {
            assert(last[i - front.len()] == e);
            lemma_wanted_is_accepted(ts.last(), w, depth, e);
        }
    }
}

proof fn lemma_below_one_of(
    d: Desktop,
    es: Seq<ElementView>,
    w: WantedView,
    e: ElementView,
) -> (i: int)
    requires
        d.wanted_below_all(es, w).contains(e),
    ensures
        0 <= i < es.len(),
        d.wanted_below(es[i], w).contains(e),
    decreases es.len(),
{
    assert(es.len() > 0);
    let here = d.wanted_below(es[0], w);
    let later = d.wanted_below_all(es.skip(1), w);
    let k = choose|k: int| 0 <= k < (here + later).len() && (here + later)[k] == e;
    if k < here.len() {
        assert(here[k] == e);
        0
    } else {
        assert(later[k - here.len()] == e);
        lemma_below_one_of(d, es.skip(1), w, e) + 1
    }
}

proof fn lemma_in_one_window(
    d: Desktop,
    ws: Seq<WindowNodeView>,
    q: QueryView,
    e: ElementView,
) -> (i: int)
    requires
        d.in_windows(ws, q).contains(e),
    ensures
        0 <= i < ws.len(),
        d.in_window((d.element)(ws[i])->Ok_0, q).contains(e),
    decreases ws.len(),
{
    assert(ws.len() > 0);
    let here = d.in_window((d.element)(ws[0])->Ok_0, q);
    let later = d.in_windows(ws.skip(1), q);
    let k = choose|k: int| 0 <= k < (here + later).len() && (here + later)[k] == e;
    if k < here.len() {
        assert(here[k] == e);
        0
    } else {
        assert(later[k - here.len()] == e);
        lemma_in_one_window(d, ws.skip(1), q, e) + 1
    }
}

/// `e` is wanted and lies inside the surrounding element `around`, which itself
/// lies in the window `w`.
pub open spec fn lies_inside(
    d: Desktop,
    w: WindowNodeView,
    around: ElementView,
    e: ElementView,
    q: QueryView,
) -> bool {
    &&& q.around() matches Some(p)
    &&& p.accepts(around)
    &&& d.wanted_below((d.element)(w)->Ok_0, p).contains(around)
    &&& q.target().accepts(e)
    &&& d.wanted_below(around, q.target()).contains(e)
}

/// Where there have to be surrounding elements, everything that is found lies
/// inside one of them; and whatever is found is as it was wanted.
pub proof fn law_found_lies_inside_a_parent(
    d: Desktop,
    ws: Seq<WindowNodeView>,
    q: QueryView,
    e: ElementView,
)
    requires
        q.around() is Some,
        q.target().cut(d.in_windows(ws, q)).contains(e),
    ensures
        exists|w: WindowNodeView, around: ElementView|
            ws.contains(w) && #[trigger] lies_inside(d, w, around, e, q),
{
    let all = d.in_windows(ws, q);
    let cut = q.target().cut(all);
    let k = choose|k: int| 0 <= k < cut.len() && cut[k] == e;
    assert(all[k] == e);
    let i = lemma_in_one_window(d, ws, q, e);
    let p = q.around()->0;
    let el = (d.element)(ws[i])->Ok_0;
    let parents = p.cut(d.wanted_below(el, p));
    let j = lemma_below_one_of(d, parents, q.target(), e);
    let around = parents[j];
    assert(d.wanted_below(el, p)[j] == around);
    lemma_wanted_is_accepted(d.tree(el, 0), p, 0, around);
    lemma_wanted_is_accepted(d.tree(around, 0), q.target(), 0, e);
    assert(ws.contains(ws[i]));
    assert(lies_inside(d, ws[i], around, e, q));
}

/// A parent's role or its name alone already asks for a surrounding element.
pub proof fn law_one_trait_of_the_parent_constrains(target: SemanticTarget)
    ensures
        match target {
            SemanticTarget::ByAccessibility { parent_role, parent_name, .. } => {
                &&& query_of(target) matches Ok(q)
                &&& q.around() == (if parent_role is Some || parent_name is Some {
                    Some(
                        WantedView::Semantic {
                            role: opt_text(parent_role),
                            name: opt_text(parent_name),
                        },
                    )
                } else {
                    None
                })
            },
            SemanticTarget::Other(_) => query_of(target) is Err,
        },
{
}

// ---------------------------------------------------------------------------
// The one element at a path
// ---------------------------------------------------------------------------
/// `a` comes before `b` in the order of characters.
pub open spec fn text_before(a: Seq<char>, b: Seq<char>) -> bool
    decreases a.len(),
{
    if b.len() == 0 {
        false
    } else if a.len() == 0 {
        true
    } else if a[0] == b[0] {
        text_before(a.skip(1), b.skip(1))
    } else {
        a[0] < b[0]
    }
}

/// `a` comes before `b` by application and path.
pub open spec fn before(a: ElementView, b: ElementView) -> bool {
    text_before(a.bus_name, b.bus_name) || (a.bus_name == b.bus_name && text_before(a.path, b.path))
}

/// The same object: an application's objects are told apart by their paths.
pub open spec fn same_object(a: ElementView, b: ElementView) -> bool {
    a.bus_name == b.bus_name && a.path == b.path
}

/// Some element of `s` is the object `e`.
pub open spec fn has_object(s: Seq<ElementView>, e: ElementView) -> bool {
    exists|i: int| 0 <= i < s.len() && same_object(#[trigger] s[i], e)
}

/// Each object once, as it was found first.
pub open spec fn distinct(s: Seq<ElementView>) -> Seq<ElementView>
    decreases s.len(),
{
    if s.len() == 0 {
        Seq::empty()
    } else {
        let front = distinct(s.drop_last());
        if has_object(front, s.last()) {
            front
        } else {
            front.push(s.last())
        }
    }
}

/// `e` put in its place in `s`.
pub open spec fn placed(s: Seq<ElementView>, e: ElementView) -> Seq<ElementView>
    decreases s.len(),
{
    if s.len() > 0 && before(e, s.last()) {
        placed(s.drop_last(), e).push(s.last())
    } else {
        s.push(e)
    }
}

/// The elements in order.
pub open spec fn ordered(s: Seq<ElementView>) -> Seq<ElementView>
    decreases s.len(),
{
    if s.len() == 0 {
        Seq::empty()
    } else {
        placed(ordered(s.drop_last()), s.last())
    }
}

/// The applications of the elements.
pub open spec fn buses(s: Seq<ElementView>) -> Seq<Seq<char>> {
    Seq::new(s.len(), |i: int| s[i].bus_name)
}

/// The element at a path: the only object that was found. Where several
/// applications have one there, none is picked.
pub open spec fn settled(found: Seq<ElementView>, path: Seq<char>) -> Result<
    ElementView,
    ErrorView,
> {
    let one = distinct(found);
    if one.len() == 0 {
        Err(ErrorView::WindowNotFound("a11y path "@ + path))
    } else if one.len() == 1 {
        Ok(one[0])
    } else {
        Err(
            ErrorView::WindowNotFound(
                "a11y path "@ + path + " is ambiguous across bus names ["@ + join(
                    buses(ordered(one)),
                    ", "@,
                ) + "]; pass --bus to disambiguate"@,
            ),
        )
    }
}

fn text_is_before(a: &str, b: &str) -> (r: bool)
    ensures
        r == text_before(a@, b@),
{
    let x = chars_of(a);
    let y = chars_of(b);
    let mut i: usize = 0;
    assert(a@.skip(0) =~= a@);
    assert(b@.skip(0) =~= b@);
    loop
        invariant
            x@ == a@,
            y@ == b@,
            i <= x.len(),
            i <= y.len(),
            text_before(a@, b@) == text_before(a@.skip(i as int), b@.skip(i as int)),
        decreases x.len() - i,
    {
        if i == y.len() {
            return false;
        }
        if i == x.len() {
            return true;
        }
        if x[i] != y[i] {
            return x[i] < y[i];
        }
        assert(a@.skip(i as int).skip(1) =~= a@.skip(i as int + 1));
        assert(b@.skip(i as int).skip(1) =~= b@.skip(i as int + 1));
        i = i + 1;
    }
}

fn is_before(a: &ElementNode, b: &ElementNode) -> (r: bool)
    ensures
        r == before(a@, b@),
{
    text_is_before(a.bus_name.as_str(), b.bus_name.as_str()) || (same(
        a.bus_name.as_str(),
        b.bus_name.as_str(),
    ) && text_is_before(a.path.as_str(), b.path.as_str()))
}

fn holds_object(v: &Vec<ElementNode>, e: &ElementNode) -> (r: bool)
    ensures
        r == has_object(views(v@), e@),
{
    let mut i: usize = 0;
    while i < v.len()
        invariant
            i <= v.len(),
            forall|j: int| 0 <= j < i ==> !same_object(#[trigger] views(v@)[j], e@),
        decreases v.len() - i,
    {
        assert(views(v@)[i as int] == v@[i as int]@);
        if same(v[i].bus_name.as_str(), e.bus_name.as_str()) && same(
            v[i].path.as_str(),
            e.path.as_str(),
        ) {
            return true;
        }
        i = i + 1;
    }
    false
}

fn distinct_of(v: &Vec<ElementNode>) -> (r: Vec<ElementNode>)
    ensures
        views(r@) == distinct(views(v@)),
{
    broadcast use lemma_views_push;

    let ghost all = views(v@);
    let mut out: Vec<ElementNode> = Vec::new();
    let mut i: usize = 0;
    assert(views(out@) =~= Seq::<ElementView>::empty());
    while i < v.len()
        invariant
            i <= v.len(),
            all == views(v@),
            views(out@) == distinct(all.take(i as int)),
        decreases v.len() - i,
    {
        let ghost now = all.take(i as int + 1);
        assert(now.drop_last() =~= all.take(i as int));
        assert(now.last() == v@[i as int]@);
        if !holds_object(&out, &v[i]) {
            out.push(v[i].clone());
        }
        i = i + 1;
    }
    assert(all.take(i as int) =~= all);
    out
}

fn place(v: &mut Vec<ElementNode>, e: ElementNode)
    ensures
        views(final(v)@) == placed(views(old(v)@), e@),
    decreases old(v)@.len(),
{
    broadcast use lemma_views_push;

    let n: usize = v.len();
    if n > 0 && is_before(&e, &v[n - 1]) {
        let ghost all = views(v@);
        assert(all.last() == v@[n - 1]@);
        if let Some(last) = v.pop() {
            assert(views(v@) =~= all.drop_last());
            place(v, e);
            v.push(last);
        }
    } else {
        assert(n > 0 ==> views(v@).last() == v@[n - 1]@);
        v.push(e);
    }
}

/// The element at `path` among those found there.
pub fn settle(found: &Vec<ElementNode>, path: &str) -> (r: Result<ElementNode, AgentShellError>)
    ensures
        item_result(r) == settled(views(found@), path@),
{
    broadcast use lemma_texts_push;

    let one = distinct_of(found);
    assert(views(one@).len() == one@.len());
    if one.len() == 0 {
        return Err(AgentShellError::WindowNotFound(cat("a11y path ", path)));
    }
    if one.len() == 1 {
        assert(views(one@)[0] == one@[0]@);
        return Ok(one[0].clone());
    }
    let ghost all = views(one@);
    let mut sorted: Vec<ElementNode> = Vec::new();
    let mut i: usize = 0;
    assert(views(sorted@) =~= Seq::<ElementView>::empty());
    while i < one.len()
        invariant
            i <= one.len(),
            all == views(one@),
            views(sorted@) == ordered(all.take(i as int)),
        decreases one.len() - i,
    {
        let ghost now = all.take(i as int + 1);
        assert(now.drop_last() =~= all.take(i as int));
        assert(now.last() == one@[i as int]@);
        place(&mut sorted, one[i].clone());
        i = i + 1;
    }
    assert(all.take(i as int) =~= all);
    let mut names: Vec<String> = Vec::new();
    let ghost want = buses(views(sorted@));
    let mut k: usize = 0;
    assert(texts(names@) =~= want.take(0));
    while k < sorted.len()
        invariant
            k <= sorted.len(),
            want == buses(views(sorted@)),
            texts(names@) == want.take(k as int),
        decreases sorted.len() - k,
    {
        let ghost had = texts(names@);
        assert(want[k as int] == sorted@[k as int].bus_name@);
        names.push(sorted[k].bus_name.clone());
        assert(texts(names@) == had.push(want[k as int]));
        k = k + 1;
        assert(texts(names@) =~= want.take(k as int));
    }
    assert(want.take(k as int) =~= want);
    let list = joined(&names, ", ");
    let head = cat3("a11y path ", path, " is ambiguous across bus names [");
    Err(
        AgentShellError::WindowNotFound(
            cat3(head.as_str(), list.as_str(), "]; pass --bus to disambiguate"),
        ),
    )
}

proof fn lemma_distinct(s: Seq<ElementView>)
    ensures
        forall|e: ElementView| #[trigger] has_object(distinct(s), e) == has_object(s, e),
        forall|i: int, j: int|
            0 <= i < j < distinct(s).len() ==> !same_object(
                #[trigger] distinct(s)[i],
                #[trigger] distinct(s)[j],
            ),
        forall|i: int| 0 <= i < distinct(s).len() ==> s.contains(#[trigger] distinct(s)[i]),
    decreases s.len(),
{
    if s.len() > 0 {
        let prev = s.drop_last();
        let front = distinct(prev);
        let all = distinct(s);
        lemma_distinct(prev);
        assert forall|e: ElementView| #[trigger] has_object(all, e) == has_object(s, e) by {
            if has_object(prev, e) {
                let k = choose|k: int| 0 <= k < prev.len() && same_object(#[trigger] prev[k], e);
                assert(same_object(s[k], e));
                assert(has_object(front, e));
                let m = choose|m: int| 0 <= m < front.len() && same_object(#[trigger] front[m], e);
                assert(same_object(all[m], e));
            }
            if has_object(s, e) && !has_object(prev, e) {
                let k = choose|k: int| 0 <= k < s.len() && same_object(#[trigger] s[k], e);
                if k < prev.len() {
                    assert(same_object(prev[k], e));
                }
                assert(same_object(s.last(), e));
                if has_object(front, s.last()) {
                    let m = choose|m: int|
                        0 <= m < front.len() && same_object(#[trigger] front[m], s.last());
                    assert(same_object(all[m], e));
                } else {
                    assert(same_object(all[front.len() as int], e));
                }
            }
            if has_object(all, e) {
                let m = choose|m: int| 0 <= m < all.len() && same_object(#[trigger] all[m], e);
                if m < front.len() {
                    assert(same_object(front[m], e));
                    assert(has_object(prev, e));
                } else {
                    assert(same_object(s[s.len() - 1], e));
                }
            }
        }
        assert forall|i: int, j: int| 0 <= i < j < all.len() implies !same_object(
            #[trigger] all[i],
            #[trigger] all[j],
        ) by {
            if j < front.len() {
                assert(all[i] == front[i] && all[j] == front[j]);
            } else if same_object(all[i], all[j]) {
                assert(same_object(front[i], s.last()));
                assert(has_object(front, s.last()));
            }
        }
        assert forall|i: int| 0 <= i < all.len() implies s.contains(#[trigger] all[i]) by {
            if i < front.len() {
                assert(prev.contains(front[i]));
                let k = choose|k: int| 0 <= k < prev.len() && prev[k] == front[i];
                assert(s[k] == all[i]);
            } else {
                assert(s[s.len() - 1] == all[i]);
            }
        }
    }
}

/// An element is returned only if all that was found at the path is one object;
/// where there are two different objects, none of them is picked.
pub proof fn law_never_picks_among_several(found: Seq<ElementView>, path: Seq<char>)
    ensures
        settled(found, path) matches Ok(e) ==> found.contains(e) && forall|i: int|
            0 <= i < found.len() ==> same_object(#[trigger] found[i], e),
        (exists|i: int, j: int|
            0 <= i < found.len() && 0 <= j < found.len() && !same_object(
                #[trigger] found[i],
                #[trigger] found[j],
            )) ==> settled(found, path) is Err,
        found.len() > 0 && (forall|i: int, j: int|
            0 <= i < found.len() && 0 <= j < found.len() ==> same_object(
                #[trigger] found[i],
                #[trigger] found[j],
            )) ==> settled(found, path) is Ok,
{
    let one = distinct(found);
    lemma_distinct(found);
    if one.len() == 1 {
        assert(found.contains(one[0]));
        assert forall|i: int| 0 <= i < found.len() implies same_object(
            #[trigger] found[i],
            one[0],
        ) by {
            assert(same_object(found[i], found[i]));
            assert(has_object(found, found[i]));
            assert(has_object(one, found[i]));
        }
    }
    if found.len() > 0 {
        assert(same_object(found[0], found[0]));
        assert(has_object(found, found[0]));
        assert(has_object(one, found[0]));
        if one.len() > 1 {
            assert(found.contains(one[0]) && found.contains(one[1]));
            let i = choose|i: int| 0 <= i < found.len() && found[i] == one[0];
            let j = choose|j: int| 0 <= j < found.len() && found[j] == one[1];
            assert(!same_object(found[i], found[j]));
        }
    }
}

/// The semantic locator: how the searches of this module begin.
#[derive(Debug)]
pub struct SemanticLocator {}

impl SemanticLocator {
    pub fn new() -> (r: SemanticLocator) {
        SemanticLocator {  }
    }

    /// A search for the elements that a description fits.
    pub fn locate(&self, target: SemanticTarget) -> (r: Result<Search, AgentShellError>)
        ensures
            match r {
                Ok(s) => query_of(target) matches Ok(q) && s@ == SearchView::start(q) && s@.wf(),
                Err(e) => query_of(target) == Err::<QueryView, ErrorView>(e@),
            },
    {
        match plan(target) {
            Ok(q) => Ok(Search::new(q)),
            Err(e) => Err(e),
        }
    }

    /// A search for the elements at a path, of one application where that is
    /// given; [`settle`] says which of them is meant.
    pub fn locate_by_path(&self, bus: Option<String>, path: String) -> (r: Search)
        ensures
            r@ == SearchView::start(QueryView::Path { bus: opt_text(bus), path: path@ }),
            r@.wf(),
    {
        Search::new(Query::Path { bus, path })
    }

    /// A search in the subtree below one element.
    pub fn find_elements(
        &self,
        root: &ElementNode,
        role: Option<String>,
        name: Option<String>,
    ) -> (r: Walk)
        ensures
            r@ == WalkView::start(
                root@,
                WantedView::Semantic { role: opt_text(role), name: opt_text(name) },
            ),
            r@.wf(),
    {
        Walk::new(root, Wanted::Semantic { role, name })
    }
}

/// Texts are totally ordered.
pub proof fn lemma_text_order(a: Seq<char>, b: Seq<char>, c: Seq<char>)
    ensures
        !text_before(a, a),
        text_before(a, b) ==> !text_before(b, a),
        !text_before(a, b) && !text_before(b, a) ==> a == b,
        text_before(a, b) && text_before(b, c) ==> text_before(a, c),
    decreases a.len(),
{
    if a.len() > 0 {
        lemma_text_order(a.skip(1), a.skip(1), a.skip(1));
    }
    if a.len() > 0 && b.len() > 0 {
        if a[0] == b[0] {
            lemma_text_order(a.skip(1), b.skip(1), b.skip(1));
            if a.skip(1) == b.skip(1) {
                assert(a =~= seq![a[0]] + a.skip(1));
                assert(b =~= seq![b[0]] + b.skip(1));
            }
        }
        if c.len() > 0 && a[0] == b[0] && b[0] == c[0] {
            lemma_text_order(a.skip(1), b.skip(1), c.skip(1));
        }
    } else if a.len() == 0 && b.len() == 0 {
        assert(a =~= b);
    }
}

proof fn lemma_before(a: ElementView, b: ElementView, c: ElementView)
    ensures
        before(a, b) ==> !before(b, a),
        !before(b, a) && !before(c, b) ==> !before(c, a),
{
    lemma_text_order(a.bus_name, b.bus_name, c.bus_name);
    lemma_text_order(a.path, b.path, c.path);
    lemma_text_order(b.bus_name, a.bus_name, a.bus_name);
    lemma_text_order(b.path, a.path, a.path);
    lemma_text_order(b.bus_name, c.bus_name, a.bus_name);
    lemma_text_order(b.path, c.path, a.path);
    lemma_text_order(c.bus_name, b.bus_name, a.bus_name);
    lemma_text_order(c.path, b.path, a.path);
    lemma_text_order(c.bus_name, a.bus_name, b.bus_name);
    lemma_text_order(c.path, a.path, b.path);
}

/// No element stands behind one that it comes before.
pub open spec fn in_order(s: Seq<ElementView>) -> bool {
    forall|i: int, j: int| 0 <= i < j < s.len() ==> !before(#[trigger] s[j], #[trigger] s[i])
}

proof fn lemma_placed(s: Seq<ElementView>, e: ElementView)
    requires
        in_order(s),
    ensures
        in_order(placed(s, e)),
        placed(s, e).to_multiset() == s.to_multiset().insert(e),
        forall|i: int|
            0 <= i < placed(s, e).len() ==> #[trigger] placed(s, e)[i] == e || s.contains(
                placed(s, e)[i],
            ),
    decreases s.len(),
{
    broadcast use vstd::seq_lib::group_to_multiset_ensures;

    let out = placed(s, e);
    if s.len() > 0 && before(e, s.last()) {
        let front = s.drop_last();
        lemma_placed(front, e);
        let inner = placed(front, e);
        assert forall|i: int, j: int| 0 <= i < j < out.len() implies !before(
            #[trigger] out[j],
            #[trigger] out[i],
        ) by {
            if j == inner.len() {
                assert(out[i] == inner[i]);
                lemma_before(e, s.last(), s.last());
                if inner[i] != e {
                    let k = choose|k: int| 0 <= k < front.len() && front[k] == inner[i];
                    assert(s[k] == inner[i]);
                    assert(!before(s[s.len() - 1], s[k]));
                }
            } else {
                assert(out[i] == inner[i] && out[j] == inner[j]);
            }
        }
        assert(s =~= front.push(s.last()));
        assert forall|i: int| 0 <= i < out.len() implies #[trigger] out[i] == e || s.contains(
            out[i],
        ) by {
            if i < inner.len() && inner[i] != e {
                let k = choose|k: int| 0 <= k < front.len() && front[k] == inner[i];
                assert(s[k] == out[i]);
            } else if i == inner.len() {
                assert(s[s.len() - 1] == out[i]);
            }
        }
        assert(out.to_multiset() =~= s.to_multiset().insert(e));
    } else {
        assert forall|i: int, j: int| 0 <= i < j < out.len() implies !before(
            #[trigger] out[j],
            #[trigger] out[i],
        ) by {
            if j == s.len() {
                if i < s.len() - 1 {
                    assert(!before(s[s.len() - 1], s[i]));
                    lemma_before(s[i], s.last(), e);
                }
            } else {
                assert(out[i] == s[i] && out[j] == s[j]);
            }
        }
        assert forall|i: int| 0 <= i < out.len() implies #[trigger] out[i] == e || s.contains(
            out[i],
        ) by {
            if i < s.len() {
                assert(s[i] == out[i]);
            }
        }
    }
}

/// The elements of an ambiguous path are named in order, and none is left out or
/// named twice.
pub proof fn law_ambiguous_elements_are_named_in_order(found: Seq<ElementView>)
    ensures
        in_order(ordered(distinct(found))),
        ordered(distinct(found)).to_multiset() == distinct(found).to_multiset(),
{
    lemma_ordered(distinct(found));
}

proof fn lemma_ordered(s: Seq<ElementView>)
    ensures
        in_order(ordered(s)),
        ordered(s).to_multiset() == s.to_multiset(),
    decreases s.len(),
{
    broadcast use vstd::seq_lib::group_to_multiset_ensures;

    if s.len() > 0 {
        lemma_ordered(s.drop_last());
        lemma_placed(ordered(s.drop_last()), s.last());
        assert(s =~= s.drop_last().push(s.last()));
    }
}

} // verus!
