//! What holds of searches, roles and windows of the accessibility tree, stated on the
//! fields of the elements and on the readings that a search is answered with.

use vstd::prelude::*;

use crate::a11y::atspi_bridge::{
    active_window, alive, application_with, declares, first_window, states_in, step_label,
    ConnectStep,
};
use crate::a11y::semantic_locator::{
    before, law_never_picks_among_several, law_search_finds_the_wanted, lemma_answered_add,
    lemma_answered_done, lemma_text_order, lemma_trees, query_of, same_object, settled, text_before,
    wanted_in, wanted_in_all, AskView, Desktop, QueryView, SearchView, SemanticTarget, StageView,
    Tree, WalkView, WantedView,
};
use crate::a11y::tree::{
    normal_name, same_role, ApplicationView, AtspiState, ElementView, WindowNodeView,
};
use crate::text::{contains, lower, opt_text};
use crate::types::ErrorView;

verus! {

// ---------------------------------------------------------------------------
// What is returned was asked for
// ---------------------------------------------------------------------------
/// Whether an element is what a query asks for, by its own fields.
spec fn as_asked(q: QueryView, e: ElementView) -> bool {
    match q {
        QueryView::Semantic { role, name, .. } => {
            &&& name matches Some(n) ==> e.name == n
            &&& role matches Some(r) ==> same_role(e.role.name, r)
        },
        QueryView::Path { bus, path } => {
            &&& e.path == path
            &&& bus matches Some(b) ==> e.bus_name == b
        },
    }
}

spec fn all_as_asked(q: QueryView, s: Seq<ElementView>) -> bool {
    forall|i: int| 0 <= i < s.len() ==> as_asked(q, #[trigger] s[i])
}

/// All that a search has found so far was asked for.
spec fn sound(s: SearchView) -> bool {
    &&& all_as_asked(s.query, s.results)
    &&& match s.stage {
        StageView::Inside(w, _) => w.wanted == s.query.target() && all_as_asked(s.query, w.out),
        _ => true,
    }
}

/// A step leaves a search sound and asks for something, or ends it with what was
/// asked for.
spec fn goes_on(q: QueryView, next: (SearchView, AskView)) -> bool {
    &&& sound(next.0)
    &&& next.0.query == q
    &&& next.1 matches AskView::Done(Ok(found)) ==> all_as_asked(q, found)
}

proof fn lemma_next_window(s: SearchView)
    requires
        sound(s),
    ensures
        goes_on(s.query, s.next_window()),
{
}

proof fn lemma_next_inside(s: SearchView, rest: Seq<ElementView>)
    requires
        sound(s),
    ensures
        goes_on(s.query, s.next_inside(rest)),
{
    if rest.len() > 0 {
        let w = WalkView::start(rest[0], s.query.target());
        lemma_advance(s.query, w);
    } else {
        lemma_next_window(s);
    }
}

proof fn lemma_advance(q: QueryView, w: WalkView)
    requires
        w.wanted == q.target(),
        all_as_asked(q, w.out),
    ensures
        w.advance().0.wanted == q.target(),
        all_as_asked(q, w.advance().0.out),
{
    if !w.over() {
        let e = w.todo.last().0;
        let out = w.advance().0.out;
        assert forall|i: int| 0 <= i < out.len() implies as_asked(q, #[trigger] out[i]) by {
            if i < w.out.len() {
                assert(out[i] == w.out[i]);
            }
        }
    }
}

proof fn lemma_resume(s: SearchView)
    requires
        sound(s),
    ensures
        goes_on(s.query, s.resume()),
{
    match s.stage {
        StageView::Around(w) => {
            match w.advance() {
                (v, Some(e)) => {},
                (v, None) => {
                    lemma_next_inside(s, v.out);
                },
            }
        },
        StageView::Inside(w, rest) => {
            lemma_advance(s.query, w);
            match w.advance() {
                (v, Some(e)) => {},
                (v, None) => {
                    let t = s.with_found(v.out);
                    let all = s.results + v.out;
                    assert forall|i: int| 0 <= i < t.results.len() implies as_asked(
                        s.query,
                        #[trigger] t.results[i],
                    ) by {
                        assert(t.results[i] == all[i]);
                        if i < s.results.len() {
                            assert(all[i] == s.results[i]);
                        } else {
                            assert(all[i] == v.out[i - s.results.len()]);
                        }
                    }
                    assert(sound(t));
                    lemma_next_inside(t, rest);
                },
            }
        },
        _ => {},
    }
}

proof fn lemma_answers_go_on(d: Desktop, q: QueryView, now: (SearchView, AskView), n: nat)
    requires
        goes_on(q, now),
    ensures
        goes_on(q, d.answered(now, n)),
    decreases n,
{
    if n > 0 {
        match now.1 {
            AskView::Element(w) => {
                let s = now.0;
                if let Ok(el) = (d.element)(w) {
                    match s.query.around() {
                        Some(p) => {
                            lemma_resume(
                                SearchView {
                                    stage: StageView::Around(WalkView::start(el, p)),
                                    ..s
                                },
                            );
                        },
                        None => {
                            lemma_resume(
                                SearchView {
                                    stage: StageView::Inside(
                                        WalkView::start(el, s.query.target()),
                                        Seq::empty(),
                                    ),
                                    ..s
                                },
                            );
                        },
                    }
                }
                assert(goes_on(q, s.on_element((d.element)(w))));
                lemma_answers_go_on(d, q, s.on_element((d.element)(w)), (n - 1) as nat);
            },
            AskView::Children(e) => {
                let s = now.0;
                let r = (d.children)(e);
                let c = match r {
                    Ok(v) => Some(v),
                    Err(_) => None,
                };
                if !(r is Err && s.query is Path) {
                    lemma_resume(
                        SearchView {
                            stage: match s.stage {
                                StageView::Around(w) => StageView::Around(w.fed(c)),
                                StageView::Inside(w, rest) => StageView::Inside(w.fed(c), rest),
                                x => x,
                            },
                            ..s
                        },
                    );
                }
                assert(goes_on(q, s.on_children(r)));
                lemma_answers_go_on(d, q, s.on_children(r), (n - 1) as nat);
            },
            AskView::Done(_) => {},
        }
    }
}

/// Whatever the desktop answers, every element that a search returns is what was
/// asked for: where a name is given its name is exactly that name, whatever else is
/// given, and where a role is given it has that role; an element searched for by its
/// path lies at the path, in the application that is given.
pub proof fn law_returned_elements_are_as_asked(
    d: Desktop,
    ws: Seq<WindowNodeView>,
    q: QueryView,
    n: nat,
    found: Seq<ElementView>,
    e: ElementView,
)
    requires
        d.answered(SearchView::start(q).on_windows(Ok(ws)), n).1 == AskView::Done(
            Ok::<Seq<ElementView>, ErrorView>(found),
        ),
        found.contains(e),
    ensures
        match q {
            QueryView::Semantic { role, name, .. } => {
                &&& name matches Some(x) ==> e.name == x
                &&& role matches Some(r) ==> same_role(e.role.name, r)
            },
            QueryView::Path { bus, path } => {
                &&& e.path == path
                &&& bus matches Some(b) ==> e.bus_name == b
            },
        },
{
    let start = SearchView { windows: ws, ..SearchView::start(q) };
    lemma_next_window(start);
    assert(SearchView::start(q).on_windows(Ok(ws)) == start.next_window());
    lemma_answers_go_on(d, q, start.next_window(), n);
    let i = choose|i: int| 0 <= i < found.len() && found[i] == e;
    assert(as_asked(q, found[i]));
}

/// A description by role and name is searched for by that role and that name.
pub proof fn law_description_is_searched_for(
    role: Option<String>,
    name: Option<String>,
    parent_role: Option<String>,
    parent_name: Option<String>,
)
    ensures
        query_of(
            SemanticTarget::ByAccessibility { role, name, parent_role, parent_name },
        ) matches Ok(QueryView::Semantic { role: r, name: n, parent: p }) && r == opt_text(role)
            && n == opt_text(name) && (p is None <==> parent_role is None && parent_name is None)
            && (p matches Some(x) ==> x.0 == opt_text(parent_role) && x.1 == opt_text(parent_name)),
{
}

// ---------------------------------------------------------------------------
// What can be reached is returned
// ---------------------------------------------------------------------------
/// Whether elements lead down the tree, each one a child of the one before.
pub open spec fn leads_down(d: Desktop, path: Seq<ElementView>) -> bool {
    &&& path.len() > 0
    &&& forall|i: int|
        0 < i < path.len() ==> ((d.children)(#[trigger] path[i - 1]) matches Ok(c) && c.contains(
            path[i],
        ))
}

proof fn lemma_in_one_of(ts: Seq<Tree>, w: WantedView, depth: nat, i: int, e: ElementView)
    requires
        0 <= i < ts.len(),
        wanted_in(ts[i], w, depth).contains(e),
    ensures
        wanted_in_all(ts, w, depth).contains(e),
    decreases ts.len(),
{
    let front = wanted_in_all(ts.drop_last(), w, depth);
    let last = wanted_in(ts.last(), w, depth);
    if i == ts.len() - 1 {
        let k = choose|k: int| 0 <= k < last.len() && last[k] == e;
        assert((front + last)[front.len() + k] == e);
    } else {
        assert(ts.drop_last()[i] == ts[i]);
        lemma_in_one_of(ts.drop_last(), w, depth, i, e);
        let k = choose|k: int| 0 <= k < front.len() && front[k] == e;
        assert((front + last)[k] == e);
    }
}

proof fn lemma_reached_is_wanted(d: Desktop, path: Seq<ElementView>, w: WantedView, depth: nat)
    requires
        leads_down(d, path),
        depth + path.len() <= 25,
        w.accepts(path.last()),
    ensures
        wanted_in(d.tree(path[0], depth), w, depth).contains(path.last()),
    decreases path.len(),
{
    let t = d.tree(path[0], depth);
    let here = if w.accepts(t.at) {
        seq![t.at]
    } else {
        Seq::empty()
    };
    if path.len() == 1 {
        assert(here[0] == path.last());
        let all = wanted_in(t, w, depth);
        assert(all[0] == path.last());
    } else {
        let rest = path.skip(1);
        assert forall|i: int| 0 < i < rest.len() implies ((d.children)(
            #[trigger] rest[i - 1],
        ) matches Ok(c) && c.contains(rest[i])) by {
            assert(rest[i - 1] == path[i + 1 - 1]);
            assert(rest[i] == path[i + 1]);
        }
        assert(rest.last() == path.last());
        lemma_reached_is_wanted(d, rest, w, depth + 1);
        assert((d.children)(path[1 - 1]) is Ok);
        let c = (d.children)(path[0])->Ok_0;
        let k = choose|k: int| 0 <= k < c.len() && c[k] == path[1];
        lemma_trees(d, c, depth + 1);
        let ts = d.trees(c, depth + 1);
        assert(ts[k] == d.tree(path[1], depth + 1));
        lemma_in_one_of(ts, w, depth + 1, k, path.last());
        let below = wanted_in_all(ts, w, depth + 1);
        assert(t.below == Some(ts));
        let j = choose|j: int| 0 <= j < below.len() && below[j] == path.last();
        assert((here + below)[here.len() + j] == path.last());
    }
}

proof fn lemma_in_windows(d: Desktop, ws: Seq<WindowNodeView>, q: QueryView, i: int, e: ElementView)
    requires
        0 <= i < ws.len(),
        d.in_window((d.element)(ws[i])->Ok_0, q).contains(e),
    ensures
        d.in_windows(ws, q).contains(e),
    decreases i,
{
    let first = d.in_window((d.element)(ws[0])->Ok_0, q);
    let rest = d.in_windows(ws.skip(1), q);
    if i == 0 {
        let k = choose|k: int| 0 <= k < first.len() && first[k] == e;
        assert((first + rest)[k] == e);
    } else {
        assert(ws.skip(1)[i - 1] == ws[i]);
        lemma_in_windows(d, ws.skip(1), q, i - 1, e);
        let k = choose|k: int| 0 <= k < rest.len() && rest[k] == e;
        assert((first + rest)[first.len() + k] == e);
    }
}

proof fn lemma_below_all(d: Desktop, es: Seq<ElementView>, w: WantedView, i: int, e: ElementView)
    requires
        0 <= i < es.len(),
        d.wanted_below(es[i], w).contains(e),
    ensures
        d.wanted_below_all(es, w).contains(e),
    decreases i,
{
    let first = d.wanted_below(es[0], w);
    let rest = d.wanted_below_all(es.skip(1), w);
    if i == 0 {
        let k = choose|k: int| 0 <= k < first.len() && first[k] == e;
        assert((first + rest)[k] == e);
    } else {
        assert(es.skip(1)[i - 1] == es[i]);
        lemma_below_all(d, es.skip(1), w, i - 1, e);
        let k = choose|k: int| 0 <= k < rest.len() && rest[k] == e;
        assert((first + rest)[first.len() + k] == e);
    }
}

/// A search has one outcome.
proof fn lemma_one_outcome(
    d: Desktop,
    ws: Seq<WindowNodeView>,
    q: QueryView,
    n: nat,
    found: Seq<ElementView>,
)
    requires
        d.readable(ws, q),
        d.answered(SearchView::start(q).on_windows(Ok(ws)), n).1 == AskView::Done(
            Ok::<Seq<ElementView>, ErrorView>(found),
        ),
    ensures
        found == q.target().cut(d.in_windows(ws, q)),
{
    law_search_finds_the_wanted(d, ws, q);
    let now = SearchView::start(q).on_windows(Ok(ws));
    let m = choose|m: nat|
        (#[trigger] d.answered(now, m)).1 == AskView::Done(
            Ok(q.target().cut(d.in_windows(ws, q))),
        );
    lemma_answered_add(d, now, m, n);
    lemma_answered_done(d, d.answered(now, m), n);
    lemma_answered_add(d, now, n, m);
    lemma_answered_done(d, d.answered(now, n), m);
}

/// Every element that can be reached from a window, with the role and the name that
/// are searched for, is returned, unless the greatest number of elements is returned.
pub proof fn law_reachable_elements_are_returned(
    d: Desktop,
    ws: Seq<WindowNodeView>,
    role: Option<Seq<char>>,
    name: Option<Seq<char>>,
    i: int,
    path: Seq<ElementView>,
    n: nat,
    found: Seq<ElementView>,
)
    requires
        forall|k: int| 0 <= k < ws.len() ==> (d.element)(#[trigger] ws[k]) is Ok,
        0 <= i < ws.len(),
        leads_down(d, path),
        path.len() <= 25,
        (d.element)(ws[i]) == Ok::<ElementView, ErrorView>(path[0]),
        name matches Some(x) ==> path.last().name == x,
        role matches Some(r) ==> same_role(path.last().role.name, r),
        d.answered(
            SearchView::start(QueryView::Semantic { role, name, parent: None }).on_windows(Ok(ws)),
            n,
        ).1 == AskView::Done(Ok::<Seq<ElementView>, ErrorView>(found)),
    ensures
        found.contains(path.last()) || found.len() == 10_000,
        found.len() <= 10_000,
{
    let q = QueryView::Semantic { role, name, parent: None };
    lemma_one_outcome(d, ws, q, n, found);
    lemma_reached_is_wanted(d, path, q.target(), 0);
    lemma_in_windows(d, ws, q, i, path.last());
}

/// Where a surrounding element is asked for, every element that can be reached from
/// one with the parent's role and name is returned, unless the greatest number of
/// elements is returned or of surrounding elements is looked into.
pub proof fn law_reachable_elements_inside_are_returned(
    d: Desktop,
    ws: Seq<WindowNodeView>,
    role: Option<Seq<char>>,
    name: Option<Seq<char>>,
    parent_role: Option<Seq<char>>,
    parent_name: Option<Seq<char>>,
    i: int,
    outer: Seq<ElementView>,
    inner: Seq<ElementView>,
    n: nat,
    found: Seq<ElementView>,
)
    requires
        forall|k: int| 0 <= k < ws.len() ==> (d.element)(#[trigger] ws[k]) is Ok,
        0 <= i < ws.len(),
        leads_down(d, outer),
        outer.len() <= 25,
        (d.element)(ws[i]) == Ok::<ElementView, ErrorView>(outer[0]),
        parent_name matches Some(x) ==> outer.last().name == x,
        parent_role matches Some(r) ==> same_role(outer.last().role.name, r),
        leads_down(d, inner),
        inner.len() <= 25,
        inner[0] == outer.last(),
        name matches Some(x) ==> inner.last().name == x,
        role matches Some(r) ==> same_role(inner.last().role.name, r),
        d.wanted_below(
            outer[0],
            WantedView::Semantic { role: parent_role, name: parent_name },
        ).len() <= 10_000,
        d.answered(
            SearchView::start(
                QueryView::Semantic { role, name, parent: Some((parent_role, parent_name)) },
            ).on_windows(Ok(ws)),
            n,
        ).1 == AskView::Done(Ok::<Seq<ElementView>, ErrorView>(found)),
    ensures
        found.contains(inner.last()) || found.len() == 10_000,
        found.len() <= 10_000,
{
    let q = QueryView::Semantic { role, name, parent: Some((parent_role, parent_name)) };
    let p = WantedView::Semantic { role: parent_role, name: parent_name };
    assert(q.around() == Some(p));
    lemma_one_outcome(d, ws, q, n, found);
    lemma_reached_is_wanted(d, outer, p, 0);
    lemma_reached_is_wanted(d, inner, q.target(), 0);
    let parents = d.wanted_below(outer[0], p);
    let k = choose|k: int| 0 <= k < parents.len() && parents[k] == outer.last();
    lemma_below_all(d, parents, q.target(), k, inner.last());
    lemma_in_windows(d, ws, q, i, inner.last());
}

/// Every element at a path that can be reached is returned, of the application that is
/// given; nothing is left out.
pub proof fn law_elements_at_a_path_are_returned(
    d: Desktop,
    ws: Seq<WindowNodeView>,
    bus: Option<Seq<char>>,
    at: Seq<char>,
    i: int,
    path: Seq<ElementView>,
    n: nat,
    found: Seq<ElementView>,
)
    requires
        d.readable(ws, QueryView::Path { bus, path: at }),
        0 <= i < ws.len(),
        leads_down(d, path),
        path.len() <= 25,
        (d.element)(ws[i]) == Ok::<ElementView, ErrorView>(path[0]),
        path.last().path == at,
        bus matches Some(b) ==> path.last().bus_name == b,
        d.answered(SearchView::start(QueryView::Path { bus, path: at }).on_windows(Ok(ws)), n).1
            == AskView::Done(Ok::<Seq<ElementView>, ErrorView>(found)),
    ensures
        found.contains(path.last()),
{
    let q = QueryView::Path { bus, path: at };
    lemma_one_outcome(d, ws, q, n, found);
    lemma_reached_is_wanted(d, path, q.target(), 0);
    lemma_in_windows(d, ws, q, i, path.last());
}

// ---------------------------------------------------------------------------
// Roles
// ---------------------------------------------------------------------------
/// A role's name is compared without spaces, hyphens and underscores, and in lower
/// case; every other character counts.
pub proof fn law_role_names_are_compared_by_their_letters(a: Seq<char>, c: char)
    ensures
        normal_name(a.push(c)) == (if c == ' ' || c == '-' || c == '_' {
            normal_name(a)
        } else {
            normal_name(a).push(lower(c))
        }),
        normal_name(Seq::empty()).len() == 0,
{
    assert(a.push(c).drop_last() == a);
}

/// Names of one role are the same name, or one of the pairs that toolkits use; no two
/// other names are.
pub proof fn law_only_known_names_share_a_role(a: Seq<char>, b: Seq<char>)
    ensures
        ({
            let x = normal_name(a);
            let y = normal_name(b);
            same_role(a, b) <==> {
                ||| x == y
                ||| x == "button"@ && y == "pushbutton"@
                ||| y == "button"@ && x == "pushbutton"@
                ||| x == "checkbox"@ && y == "checkbutton"@
                ||| y == "checkbox"@ && x == "checkbutton"@
                ||| x == "combobox"@ && y == "dropdownlistbox"@
                ||| y == "combobox"@ && x == "dropdownlistbox"@
                ||| x == "entry"@ && y == "textbox"@
                ||| y == "entry"@ && x == "textbox"@
                ||| x == "text"@ && y == "label"@
                ||| y == "text"@ && x == "label"@
            }
        }),
{
}

// ---------------------------------------------------------------------------
// Windows and applications
// ---------------------------------------------------------------------------
/// The window says that it is active or that it has the focus: the second or the
/// thirteenth of its state bits is set.
pub open spec fn says_active(w: WindowNodeView) -> bool {
    w.states.0 & 0x2 == 0x2 || w.states.0 & 0x1000 == 0x1000
}

/// The active window is the first one that says so; where none does, it is the first
/// one that is shown (bit twenty-five), and where none is, there is none.
pub proof fn law_active_window_is_the_first(ws: Seq<WindowNodeView>)
    ensures
        match active_window(ws) {
            Some(w) => exists|i: int|
                0 <= i < ws.len() && #[trigger] ws[i] == w && ((says_active(w) && forall|k: int|
                    0 <= k < i ==> !says_active(#[trigger] ws[k])) || (w.states.0 & 0x200_0000
                    == 0x200_0000 && (forall|k: int|
                    0 <= k < ws.len() ==> !says_active(#[trigger] ws[k])) && (forall|k: int|
                    0 <= k < i ==> (#[trigger] ws[k]).states.0 & 0x200_0000 != 0x200_0000))),
            None => forall|k: int|
                0 <= k < ws.len() ==> !says_active(#[trigger] ws[k]) && ws[k].states.0 & 0x200_0000
                    != 0x200_0000,
        },
{
    let p = |w: WindowNodeView| crate::a11y::atspi_bridge::active(w);
    let s = |w: WindowNodeView| crate::a11y::atspi_bridge::showing(w);
    assert forall|w: WindowNodeView| #[trigger] p(w) == says_active(w) by {}
    assert forall|w: WindowNodeView| #[trigger] s(w) == (w.states.0 & 0x200_0000
        == 0x200_0000) by {}
    lemma_first_is_first(ws, p);
    lemma_first_is_first(ws, s);
    assert(forall|k: int|
        0 <= k < ws.len() ==> p(#[trigger] ws[k]) == says_active(ws[k]) && s(ws[k]) == (
        ws[k].states.0 & 0x200_0000 == 0x200_0000));
}

proof fn lemma_first_is_first(ws: Seq<WindowNodeView>, p: spec_fn(WindowNodeView) -> bool)
    ensures
        match first_window(ws, p) {
            Some(w) => exists|i: int|
                0 <= i < ws.len() && #[trigger] ws[i] == w && p(w) && forall|k: int|
                    0 <= k < i ==> !p(#[trigger] ws[k]),
            None => forall|k: int| 0 <= k < ws.len() ==> !p(#[trigger] ws[k]),
        },
    decreases ws.len(),
{
    if ws.len() > 0 && !p(ws[0]) {
        let rest = ws.skip(1);
        lemma_first_is_first(rest, p);
        match first_window(rest, p) {
            Some(w) => {
                let i = choose|i: int|
                    0 <= i < rest.len() && #[trigger] rest[i] == w && p(w) && forall|k: int|
                        0 <= k < i ==> !p(#[trigger] rest[k]);
                assert(ws[i + 1] == w);
                assert forall|k: int| 0 <= k < i + 1 implies !p(#[trigger] ws[k]) by {
                    if k > 0 {
                        assert(rest[k - 1] == ws[k]);
                    }
                }
            },
            None => {
                assert forall|k: int| 0 <= k < ws.len() implies !p(#[trigger] ws[k]) by {
                    if k > 0 {
                        assert(rest[k - 1] == ws[k]);
                    }
                }
            },
        }
    } else if ws.len() > 0 {
        assert(ws[0] == first_window(ws, p)->0);
    }
}

/// The application of a process is the first one that runs in it.
pub proof fn law_application_is_the_first_of_its_process(apps: Seq<ApplicationView>, pid: u32)
    ensures
        match application_with(apps, pid) {
            Some(a) => apps.contains(a) && a.pid == Some(pid),
            None => forall|k: int| 0 <= k < apps.len() ==> (#[trigger] apps[k]).pid != Some(pid),
        },
    decreases apps.len(),
{
    if apps.len() > 0 && apps[0].pid != Some(pid) {
        let rest = apps.skip(1);
        law_application_is_the_first_of_its_process(rest, pid);
        match application_with(rest, pid) {
            Some(a) => {
                let k = choose|k: int| 0 <= k < rest.len() && rest[k] == a;
                assert(apps[k + 1] == a);
            },
            None => {
                assert forall|k: int| 0 <= k < apps.len() implies (#[trigger] apps[k]).pid != Some(
                    pid,
                ) by {
                    if k > 0 {
                        assert(rest[k - 1] == apps[k]);
                    }
                }
            },
        }
    } else if apps.len() > 0 {
        assert(apps[0] == application_with(apps, pid)->0);
    }
}

/// The states are those of the first word and, above them, of the second; words that
/// are missing hold none.
pub proof fn law_states_are_those_of_the_words(low: u32, high: u32, rest: Seq<u32>)
    ensures
        states_in(seq![low, high] + rest) == low + 0x1_0000_0000 * high,
        states_in(seq![low]) == low,
        states_in(Seq::empty()) == 0,
{
    let all = seq![low, high] + rest;
    assert(all[0] == low && all[1] == high);
    assert((low as u64) | ((high as u64) << 32) == (low as u64) + 0x1_0000_0000u64 * (high as u64))
        by (bit_vector);
    assert((low as u64) | ((0u32 as u64) << 32) == (low as u64)) by (bit_vector);
    assert((0u32 as u64) | ((0u32 as u64) << 32) == 0u64) by (bit_vector);
}

/// An object is gone if and only if the seventh of its state bits is set.
pub proof fn law_defunct_objects_are_gone(s: AtspiState)
    ensures
        alive(s) <==> s.0 & 0x40 != 0x40,
{
}

/// An object has an interface if and only if its description names it, with plain or
/// escaped quotes.
pub proof fn law_interface_is_declared_by_name(xml: Seq<char>, interface: Seq<char>)
    ensures
        declares(xml, interface) <==> contains(xml, "interface name=\""@ + interface + "\""@)
            || contains(xml, "interface name=\\\""@ + interface + "\\\""@),
{
}

/// The steps of connecting are reported by their names.
pub proof fn law_connection_steps_are_named()
    ensures
        step_label(ConnectStep::SessionBus) == "session bus: "@,
        step_label(ConnectStep::DaemonProxy) == "DBusProxy: "@,
        step_label(ConnectStep::BusName) == "bad bus name: "@,
        step_label(ConnectStep::NameHasOwner) == "NameHasOwner: "@,
        step_label(ConnectStep::ListActivatable) == "ListActivatableNames: "@,
        step_label(ConnectStep::BusProxy) == "org.a11y.Bus: "@,
        step_label(ConnectStep::BusAddress) == "a11y bus addr: "@,
        step_label(ConnectStep::Dial) == "a11y bus dial: "@,
{
}

// ---------------------------------------------------------------------------
// The order of what is found
// ---------------------------------------------------------------------------
/// An element is found before its children, and these in their order: of an element whose
/// children have none themselves, those are found that are wanted, the element first.
pub proof fn law_elements_come_in_the_order_of_the_tree(
    d: Desktop,
    e: ElementView,
    c: Seq<ElementView>,
    w: WantedView,
)
    requires
        (d.children)(e) == Ok::<Seq<ElementView>, ErrorView>(c),
        forall|i: int|
            0 <= i < c.len() ==> (d.children)(#[trigger] c[i]) == Ok::<
                Seq<ElementView>,
                ErrorView,
            >(Seq::empty()),
    ensures
        d.wanted_below(e, w) == (seq![e] + c).filter(|x: ElementView| w.accepts(x)),
{
    let p = |x: ElementView| w.accepts(x);
    lemma_leaves(d, c, w);
    Seq::filter_distributes_over_add(seq![e], c, p);
    reveal(Seq::filter);
    assert(seq![e].drop_last() =~= Seq::empty());
    assert(Seq::<ElementView>::empty().filter(p) =~= Seq::empty());
    assert(seq![e].filter(p) =~= if w.accepts(e) {
        seq![e]
    } else {
        Seq::empty()
    });
    let t = d.tree(e, 0);
    assert(t.below == Some(d.trees(c, 1)));
}

proof fn lemma_leaves(d: Desktop, c: Seq<ElementView>, w: WantedView)
    requires
        forall|i: int|
            0 <= i < c.len() ==> (d.children)(#[trigger] c[i]) == Ok::<
                Seq<ElementView>,
                ErrorView,
            >(Seq::empty()),
    ensures
        wanted_in_all(d.trees(c, 1), w, 1) == c.filter(|x: ElementView| w.accepts(x)),
    decreases c.len(),
{
    let p = |x: ElementView| w.accepts(x);
    reveal(Seq::filter);
    if c.len() > 0 {
        let front = c.drop_last();
        assert forall|i: int| 0 <= i < front.len() implies (d.children)(#[trigger] front[i])
            == Ok::<Seq<ElementView>, ErrorView>(Seq::empty()) by {
            assert(front[i] == c[i]);
        }
        lemma_leaves(d, front, w);
        let last = c[c.len() - 1];
        let t = d.tree(last, 1);
        assert((d.children)(last) == Ok::<Seq<ElementView>, ErrorView>(Seq::empty()));
        assert(d.trees(Seq::empty(), 2) =~= Seq::empty());
        assert(t.below == Some(Seq::<Tree>::empty()));
        assert(wanted_in_all(Seq::empty(), w, 2) =~= Seq::empty());
        assert(wanted_in(t, w, 1) =~= if w.accepts(last) {
            seq![last]
        } else {
            Seq::empty()
        });
        let ts = d.trees(c, 1);
        assert(ts.drop_last() =~= d.trees(front, 1));
        assert(ts.last() == t);
        assert(wanted_in_all(ts, w, 1) =~= c.filter(p));
    } else {
        assert(wanted_in_all(d.trees(c, 1), w, 1) =~= c.filter(p));
    }
}

/// Windows are searched one after the other.
pub proof fn law_windows_are_searched_in_order(
    d: Desktop,
    a: Seq<WindowNodeView>,
    b: Seq<WindowNodeView>,
    q: QueryView,
)
    ensures
        d.in_windows(a + b, q) == d.in_windows(a, q) + d.in_windows(b, q),
    decreases a.len(),
{
    if a.len() == 0 {
        assert(a + b =~= b);
        assert(d.in_windows(a, q) =~= Seq::empty());
        assert(d.in_windows(a + b, q) =~= d.in_windows(a, q) + d.in_windows(b, q));
    } else {
        assert((a + b).skip(1) =~= a.skip(1) + b);
        assert((a + b)[0] == a[0]);
        law_windows_are_searched_in_order(d, a.skip(1), b, q);
        assert(d.in_windows(a + b, q) =~= d.in_windows(a, q) + d.in_windows(b, q));
    }
}

/// Where nothing is found at a path, the error names the path.
pub proof fn law_nothing_at_a_path_is_named(path: Seq<char>)
    ensures
        settled(Seq::empty(), path) == Err::<ElementView, ErrorView>(
            ErrorView::WindowNotFound("a11y path "@ + path),
        ),
{
}

/// Texts are ordered by their first different character, and a text comes before its
/// continuations.
pub proof fn law_texts_are_ordered_by_their_first_difference(a: Seq<char>, b: Seq<char>, i: int)
    requires
        0 <= i <= a.len(),
        i < b.len(),
        forall|k: int| 0 <= k < i ==> a[k] == b[k],
        i < a.len() ==> a[i] < b[i],
    ensures
        text_before(a, b),
        !text_before(b, a),
    decreases i,
{
    if i > 0 {
        assert(a[0] == b[0]);
        assert forall|k: int| 0 <= k < i - 1 implies a.skip(1)[k] == b.skip(1)[k] by {
            assert(a[k + 1] == b[k + 1]);
        }
        law_texts_are_ordered_by_their_first_difference(a.skip(1), b.skip(1), i - 1);
    }
}

/// At a path an element is picked if and only if all that was found has one bus name and
/// one path.
pub proof fn law_only_one_object_is_picked(found: Seq<ElementView>, path: Seq<char>)
    requires
        found.len() > 0,
    ensures
        settled(found, path) is Ok <==> forall|i: int|
            0 <= i < found.len() ==> (#[trigger] found[i]).bus_name == found[0].bus_name
                && found[i].path == found[0].path,
        settled(found, path) matches Ok(e) ==> e.bus_name == found[0].bus_name && e.path
            == found[0].path && found.contains(e),
{
    law_never_picks_among_several(found, path);
    if settled(found, path) is Ok {
        let e = settled(found, path)->Ok_0;
        assert(same_object(found[0], e));
        assert forall|i: int| 0 <= i < found.len() implies (#[trigger] found[i]).bus_name
            == found[0].bus_name && found[i].path == found[0].path by {
            assert(same_object(found[i], e));
        }
    } else if forall|i: int|
        0 <= i < found.len() ==> (#[trigger] found[i]).bus_name == found[0].bus_name
            && found[i].path == found[0].path {
        assert forall|i: int, j: int|
            0 <= i < found.len() && 0 <= j < found.len() implies same_object(
            #[trigger] found[i],
            #[trigger] found[j],
        ) by {}
    }
}

/// Elements are ordered by their bus names, and those of one application by their paths.
pub proof fn law_elements_are_ordered_by_bus_and_path(a: ElementView, b: ElementView)
    ensures
        a.bus_name == b.bus_name ==> (before(a, b) <==> text_before(a.path, b.path)),
        text_before(a.bus_name, b.bus_name) ==> before(a, b) && !before(b, a),
{
    lemma_text_order(a.bus_name, b.bus_name, b.bus_name);
    lemma_text_order(b.bus_name, b.bus_name, b.bus_name);
}

/// A target that is no description is refused with its name.
pub proof fn law_other_targets_are_refused(s: String)
    ensures
        query_of(SemanticTarget::Other(s)) == Err::<QueryView, ErrorView>(
            ErrorView::NotImplemented("locator strategy: "@ + s@),
        ),
{
}

/// Only a description is searched for up to a number of elements: a path is followed to
/// its end.
pub proof fn law_only_descriptions_are_cut_off(q: QueryView, n: nat)
    ensures
        q is Semantic ==> (q.target().enough(n) <==> n >= 10_000),
        !(q is Semantic) ==> !q.target().enough(n),
{
}

} // verus!
