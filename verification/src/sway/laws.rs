//! What holds of the trees, lists, events and commands of Sway, stated on the
//! members of what Sway reports and on the fields of what becomes of it.

use vstd::bytes::*;
use vstd::prelude::*;
use vstd::utf8::*;

use crate::hyprland::compositor::entries;
use crate::json::{is_bool, is_int, is_text, parsed, Json};
use crate::sway::compositor::{
    children, escaped, failure_note, first_normal, forest_windows, levels_at, mode_number,
    on_container, output_entries, output_entry, quoted, report_lines, sign, stacked, tree_windows,
    version_text, window_command, workspace_entries, workspace_entry, SwayReport, WindowCommand,
};
use crate::sway::event::{
    after_focus, container_states, container_window, law_one_window_has_the_focus, on_frame, stays,
};
use crate::sway::ipc::{
    command_outcome, first_failure, frame, header_of, magic, payload_of, reply_value, subscribed, type_of,
    IpcCommand,
};
use crate::text::{dec, dec_int, texts};
use crate::types::{
    find_window, law_only_the_window_is_taken_away, law_window_is_found_by_its_identity,
    lemma_filter_keeps, DesktopEnvironment, ErrorView, EventSource, EventView, IdView, Rect,
    WindowState, WindowType, WindowView,
};

verus! {

// ---------------------------------------------------------------------------
// Containers
// ---------------------------------------------------------------------------
/// A container counts as normal if and only if it is focused, as hidden if and
/// only if it is reported as not visible, and as fullscreen or maximised if and
/// only if the member says so: true, or a number above zero.
pub proof fn law_states_tell_the_members(c: Json)
    ensures
        container_states(c).contains(WindowState::Normal) <==> c.at("focused"@) == Some(
            Json::Bool(true),
        ),
        container_states(c).contains(WindowState::Hidden) <==> c.at("visible"@) == Some(
            Json::Bool(false),
        ),
        !container_states(c).contains(WindowState::Minimized),
        c.at("fullscreen_mode"@) is None ==> !container_states(c).contains(WindowState::FullScreen),
        forall|b: bool| #[trigger]
            is_bool(c.at("fullscreen_mode"@), b) ==> (container_states(c).contains(
                WindowState::FullScreen,
            ) <==> b),
        forall|n: int| #[trigger]
            is_int(c.at("fullscreen_mode"@), n) && n <= i64::MAX ==> (container_states(c).contains(
                WindowState::FullScreen,
            ) <==> n > 0),
        c.at("maximized"@) is None ==> !container_states(c).contains(WindowState::Maximized),
        forall|b: bool| #[trigger]
            is_bool(c.at("maximized"@), b) ==> (container_states(c).contains(
                WindowState::Maximized,
            ) <==> b),
        forall|n: int| #[trigger]
            is_int(c.at("maximized"@), n) && n <= i64::MAX ==> (container_states(c).contains(
                WindowState::Maximized,
            ) <==> n > 0),
{
    let s = container_states(c);
    let hidden = c.at("visible"@) == Some(Json::Bool(false));
    let focused = c.at("focused"@) == Some(Json::Bool(true));
    let a = if hidden {
        seq![WindowState::Hidden]
    } else {
        Seq::empty()
    };
    let b = if focused {
        a.push(WindowState::Normal)
    } else {
        a
    };
    assert(hidden ==> a[0] == WindowState::Hidden && b[0] == WindowState::Hidden && s[0]
        == WindowState::Hidden);
    assert(focused ==> b[a.len() as int] == WindowState::Normal && s[a.len() as int]
        == WindowState::Normal);
    if crate::sway::event::switched_on(c, "fullscreen_mode"@) {
        assert(s[b.len() as int] == WindowState::FullScreen);
    }
    if crate::sway::event::switched_on(c, "maximized"@) {
        assert(s[s.len() - 1] == WindowState::Maximized);
    }
}

/// A container with an identifier is a window if and only if it has an application
/// or an X11 window; the window has the identifier, the texts, the process and the
/// rectangles that the container reports.
pub proof fn law_window_has_the_members(c: Json, id: u64, title: Seq<char>, app: Seq<char>, pid: u32)
    requires
        is_int(c.at("id"@), id as int),
        is_text(c.at("name"@), title),
        is_text(c.at("app_id"@), app),
        is_int(c.at("pid"@), pid as int),
    ensures
        container_window(c) matches Some(w) && {
            &&& w.id == (IdView { native_id: dec(id as nat), de_type: DesktopEnvironment::Sway })
            &&& w.title == title
            &&& w.app_id == app
            &&& w.pid == pid
            &&& w.states == container_states(c)
            &&& w.window_type == WindowType::Normal
            &&& !w.keep_above
        },
{
}

/// The content of a window lies where the member `geometry` says, its frame where
/// the member `rect` says.
pub proof fn law_window_lies_where_reported(c: Json, j: Json, g: Rect, w: WindowView)
    requires
        container_window(c) == Some(w),
        is_int(j.at("x"@), g.x as int),
        is_int(j.at("y"@), g.y as int),
        is_int(j.at("width"@), g.width as int),
        is_int(j.at("height"@), g.height as int),
    ensures
        c.at("geometry"@) == Some(j) ==> w.geometry == g,
        c.at("rect"@) == Some(j) ==> w.frame_geometry == g,
{
}

/// Without an application of its own, an X11 window goes by its class.
pub proof fn law_x11_window_goes_by_its_class(c: Json, p: Json, class: Seq<char>, id: u64)
    requires
        is_int(c.at("id"@), id as int),
        c.at("app_id"@) is None,
        c.at("window"@) is Some,
        c.at("window_properties"@) == Some(p),
        is_text(p.at("class"@), class),
    ensures
        container_window(c) matches Some(w) && w.app_id == class,
{
}

/// A container without an application and without an X11 window is no window, nor is
/// one without an identifier.
pub proof fn law_grouping_container_is_no_window(c: Json)
    ensures
        c.at("app_id"@) is None && c.at("window"@) is None ==> container_window(c) is None,
        c.at("id"@) is None ==> container_window(c) is None,
{
}

/// A window is on the workspace and the output that its container names.
pub proof fn law_window_is_where_it_is_named(c: Json, w: WindowView, name: Seq<char>)
    requires
        container_window(c) == Some(w),
    ensures
        is_text(c.at("workspace"@), name) ==> w.workspace_id == Some(
            IdView { native_id: name, de_type: DesktopEnvironment::Sway },
        ),
        (c.at("workspace"@) matches Some(o) && o is Obj && is_text(o.at("name"@), name))
            ==> w.workspace_id == Some(
            IdView { native_id: name, de_type: DesktopEnvironment::Sway },
        ),
        c.at("workspace"@) is None ==> w.workspace_id is None,
        is_text(c.at("output"@), name) ==> w.monitor_id == Some(
            IdView { native_id: name, de_type: DesktopEnvironment::Sway },
        ),
        c.at("output"@) is None ==> w.monitor_id is None,
{
}

// ---------------------------------------------------------------------------
// The tree
// ---------------------------------------------------------------------------
/// Whether a container directly holds another one, tiled or floating.
pub open spec fn holds(node: Json, c: Json) -> bool {
    exists|a: Vec<Json>, i: int|
        {
            &&& 0 <= i < a@.len()
            &&& #[trigger] a@[i] == c
            &&& (node.at("nodes"@) == Some(Json::Arr(a)) || node.at("floating_nodes"@) == Some(
                Json::Arr(a),
            ))
        }
}

/// Whether containers lead down a tree, each one held by the one before.
pub open spec fn leads_down(tree: Json, path: Seq<Json>) -> bool {
    &&& path.len() > 0
    &&& path[0] == tree
    &&& forall|i: int| 0 < i < path.len() ==> holds(#[trigger] path[i - 1], path[i])
}

/// Whether a container lies in a tree, no deeper than the limit.
pub open spec fn lies_in(tree: Json, c: Json) -> bool {
    exists|path: Seq<Json>| #[trigger]
        leads_down(tree, path) && path.len() <= 65 && path.last() == c
}

proof fn lemma_in_forest(nodes: Seq<Json>, levels: nat, i: int, w: WindowView)
    requires
        0 <= i < nodes.len(),
        tree_windows(nodes[i], levels).contains(w),
    ensures
        forest_windows(nodes, levels).contains(w),
    decreases nodes.len(),
{
    let front = forest_windows(nodes.drop_last(), levels);
    let last = tree_windows(nodes.last(), levels);
    if i == nodes.len() - 1 {
        let k = choose|k: int| 0 <= k < last.len() && last[k] == w;
        assert((front + last)[front.len() + k] == w);
    } else {
        lemma_in_forest(nodes.drop_last(), levels, i, w);
        let k = choose|k: int| 0 <= k < front.len() && front[k] == w;
        assert((front + last)[k] == w);
    }
}

proof fn lemma_of_forest(nodes: Seq<Json>, levels: nat, w: WindowView) -> (i: int)
    requires
        forest_windows(nodes, levels).contains(w),
    ensures
        0 <= i < nodes.len(),
        tree_windows(nodes[i], levels).contains(w),
    decreases nodes.len(),
{
    let front = forest_windows(nodes.drop_last(), levels);
    let last = tree_windows(nodes.last(), levels);
    let k = choose|k: int| 0 <= k < (front + last).len() && (front + last)[k] == w;
    if k < front.len() {
        assert(front[k] == w);
        lemma_of_forest(nodes.drop_last(), levels, w)
    } else {
        assert(last[k - front.len()] == w);
        nodes.len() - 1
    }
}

/// What is listed of a container: its own window, and what its children list.
proof fn lemma_listed(node: Json, levels: nat, w: WindowView)
    requires
        levels > 0,
    ensures
        container_window(node) == Some(w) ==> tree_windows(node, levels).contains(w),
        forest_windows(children(node, "nodes"@), (levels - 1) as nat).contains(w)
            ==> tree_windows(node, levels).contains(w),
        forest_windows(children(node, "floating_nodes"@), (levels - 1) as nat).contains(w)
            ==> tree_windows(node, levels).contains(w),
        tree_windows(node, levels).contains(w) ==> container_window(node) == Some(w)
            || forest_windows(children(node, "nodes"@), (levels - 1) as nat).contains(w)
            || forest_windows(children(node, "floating_nodes"@), (levels - 1) as nat).contains(w),
{
    let own = match container_window(node) {
        Some(x) => seq![x],
        None => Seq::empty(),
    };
    let a = forest_windows(children(node, "nodes"@), (levels - 1) as nat);
    let b = forest_windows(children(node, "floating_nodes"@), (levels - 1) as nat);
    let all = own + a + b;
    assert(tree_windows(node, levels) == all);
    if container_window(node) == Some(w) {
        assert(all[0] == w);
    }
    if a.contains(w) {
        let k = choose|k: int| 0 <= k < a.len() && a[k] == w;
        assert(all[own.len() + k] == w);
    }
    if b.contains(w) {
        let k = choose|k: int| 0 <= k < b.len() && b[k] == w;
        assert(all[own.len() + a.len() + k] == w);
    }
    if all.contains(w) {
        let k = choose|k: int| 0 <= k < all.len() && all[k] == w;
        if k < own.len() {
            assert(own[k] == w);
        } else if k < own.len() + a.len() {
            assert(a[k - own.len()] == w);
        } else {
            assert(b[k - own.len() - a.len()] == w);
        }
    }
}

proof fn lemma_path_is_listed(tree: Json, path: Seq<Json>, levels: nat, w: WindowView)
    requires
        leads_down(tree, path),
        path.len() <= levels,
        container_window(path.last()) == Some(w),
    ensures
        tree_windows(tree, levels).contains(w),
    decreases path.len(),
{
    lemma_listed(tree, levels, w);
    if path.len() > 1 {
        let rest = path.skip(1);
        let next = path[1];
        assert(holds(path[1 - 1], path[1]));
        assert forall|i: int| 0 < i < rest.len() implies holds(#[trigger] rest[i - 1], rest[i]) by {
            assert(rest[i - 1] == path[i + 1 - 1]);
            assert(rest[i] == path[i + 1]);
        }
        assert(rest.last() == path.last());
        lemma_path_is_listed(next, rest, (levels - 1) as nat, w);
        let (a, i) = choose|a: Vec<Json>, i: int|
            {
                &&& 0 <= i < a@.len()
                &&& #[trigger] a@[i] == next
                &&& (tree.at("nodes"@) == Some(Json::Arr(a)) || tree.at("floating_nodes"@) == Some(
                    Json::Arr(a),
                ))
            };
        lemma_in_forest(a@, (levels - 1) as nat, i, w);
    }
}

proof fn lemma_listed_has_a_path(tree: Json, levels: nat, w: WindowView) -> (path: Seq<Json>)
    requires
        tree_windows(tree, levels).contains(w),
    ensures
        leads_down(tree, path),
        path.len() <= levels,
        container_window(path.last()) == Some(w),
    decreases levels,
{
    lemma_listed(tree, levels, w);
    if container_window(tree) == Some(w) {
        seq![tree]
    } else {
        let key = if forest_windows(children(tree, "nodes"@), (levels - 1) as nat).contains(w) {
            "nodes"@
        } else {
            "floating_nodes"@
        };
        let nodes = children(tree, key);
        let i = lemma_of_forest(nodes, (levels - 1) as nat, w);
        let rest = lemma_listed_has_a_path(nodes[i], (levels - 1) as nat, w);
        let path = seq![tree] + rest;
        assert(holds(tree, nodes[i])) by {
            assert(tree.at(key) is Some);
            let a = tree.at(key)->0->Arr_0;
            assert(a@[i] == nodes[i]);
        }
        assert forall|k: int| 0 < k < path.len() implies holds(#[trigger] path[k - 1], path[k]) by {
            if k > 1 {
                assert(path[k - 1] == rest[k - 1 - 1]);
                assert(path[k] == rest[k - 1]);
            } else {
                assert(path[0] == tree);
                assert(path[1] == rest[0]);
            }
        }
        assert(path.last() == rest.last());
        path
    }
}

/// Every window container in a tree is listed, with its identifier and its states.
pub proof fn law_window_container_is_listed(tree: Json, c: Json, n: u64) -> (k: int)
    requires
        lies_in(tree, c),
        is_int(c.at("id"@), n as int),
        c.at("app_id"@) is Some || c.at("window"@) is Some,
    ensures
        ({
            let listed = stacked(tree_windows(tree, levels_at(0)));
            &&& 0 <= k < listed.len()
            &&& listed[k].id.native_id == dec(n as nat)
            &&& listed[k].states == container_states(c)
        }),
{
    let ws = tree_windows(tree, levels_at(0));
    let path = choose|path: Seq<Json>| #[trigger]
        leads_down(tree, path) && path.len() <= 65 && path.last() == c;
    let w = container_window(c)->0;
    lemma_path_is_listed(tree, path, levels_at(0), w);
    choose|k: int| 0 <= k < ws.len() && ws[k] == w
}

/// Every window that is listed is a container in the tree, with its identifier and
/// its states. Its place tells how it is stacked.
pub proof fn law_listed_window_is_a_container(tree: Json, k: int) -> (c: Json)
    requires
        0 <= k < stacked(tree_windows(tree, levels_at(0))).len(),
    ensures
        lies_in(tree, c),
        c.at("app_id"@) is Some || c.at("window"@) is Some,
        ({
            let w = stacked(tree_windows(tree, levels_at(0)))[k];
            &&& exists|n: u64| is_int(c.at("id"@), n as int) && w.id.native_id == #[trigger] dec(
                n as nat,
            )
            &&& w.states == container_states(c)
            &&& w.stacking_order == k as u32
        }),
{
    let ws = tree_windows(tree, levels_at(0));
    assert(ws.contains(ws[k]));
    let path = lemma_listed_has_a_path(tree, levels_at(0), ws[k]);
    let c = path.last();
    let n = c.uint_of("id"@)->0;
    assert(is_int(c.at("id"@), n as int) && ws[k].id.native_id == dec(n as nat));
    c
}

proof fn lemma_first_normal(ws: Seq<WindowView>)
    ensures
        match first_normal(ws) {
            Some(w) => ws.contains(w) && w.states.contains(WindowState::Normal),
            None => forall|i: int|
                0 <= i < ws.len() ==> !(#[trigger] ws[i]).states.contains(WindowState::Normal),
        },
    decreases ws.len(),
{
    if ws.len() > 0 && !ws[0].states.contains(WindowState::Normal) {
        lemma_first_normal(ws.skip(1));
        assert forall|i: int| 0 < i < ws.len() implies ws[i] == ws.skip(1)[i - 1] by {}
        match first_normal(ws.skip(1)) {
            Some(w) => {
                let k = choose|k: int| 0 <= k < ws.skip(1).len() && ws.skip(1)[k] == w;
                assert(ws[k + 1] == w);
            },
            None => {
                assert forall|i: int| 0 <= i < ws.len() implies !(#[trigger] ws[i]).states.contains(
                    WindowState::Normal,
                ) by {
                    if i > 0 {
                        assert(ws[i] == ws.skip(1)[i - 1]);
                    }
                }
            },
        }
    } else if ws.len() > 0 {
        assert(ws[0] == first_normal(ws)->0);
    }
}

/// Where one window container in a tree is focused and no other one is, the active
/// window is the one with its identifier.
pub proof fn law_focused_container_is_the_active_window(tree: Json, c: Json, n: u64)
    requires
        lies_in(tree, c),
        is_int(c.at("id"@), n as int),
        c.at("app_id"@) is Some || c.at("window"@) is Some,
        c.at("focused"@) == Some(Json::Bool(true)),
        forall|o: Json|
            #![trigger lies_in(tree, o)]
            lies_in(tree, o) && (o.at("app_id"@) is Some || o.at("window"@) is Some) && o.at(
                "focused"@,
            ) == Some(Json::Bool(true)) ==> o.at("id"@) == c.at("id"@),
    ensures
        first_normal(stacked(tree_windows(tree, levels_at(0)))) matches Some(w) && w.id == (
        IdView { native_id: dec(n as nat), de_type: DesktopEnvironment::Sway })
            && w.states.contains(WindowState::Normal),
{
    let ws = tree_windows(tree, levels_at(0));
    let r = stacked(ws);
    let path = choose|path: Seq<Json>| #[trigger]
        leads_down(tree, path) && path.len() <= 65 && path.last() == c;
    let own = container_window(c)->0;
    lemma_path_is_listed(tree, path, levels_at(0), own);
    let k = choose|k: int| 0 <= k < ws.len() && ws[k] == own;
    law_states_tell_the_members(c);
    assert(r[k].states.contains(WindowState::Normal));
    lemma_first_normal(r);
    let w = first_normal(r)->0;
    let i = choose|i: int| 0 <= i < r.len() && r[i] == w;
    assert(ws.contains(ws[i]));
    let other = lemma_listed_has_a_path(tree, levels_at(0), ws[i]);
    let o = other.last();
    assert(lies_in(tree, o));
    law_states_tell_the_members(o);
    assert(o.at("focused"@) == Some(Json::Bool(true)));
    assert(o.uint_of("id"@) == c.uint_of("id"@));
}

/// Where no window container in a tree is focused, no window is active.
pub proof fn law_no_focus_means_no_active_window(tree: Json)
    requires
        forall|o: Json|
            #![trigger lies_in(tree, o)]
            lies_in(tree, o) ==> o.at("focused"@) != Some(Json::Bool(true)),
    ensures
        first_normal(stacked(tree_windows(tree, levels_at(0)))) is None,
{
    let ws = tree_windows(tree, levels_at(0));
    let r = stacked(ws);
    lemma_first_normal(r);
    if let Some(w) = first_normal(r) {
        let i = choose|i: int| 0 <= i < r.len() && r[i] == w;
        assert(ws.contains(ws[i]));
        let path = lemma_listed_has_a_path(tree, levels_at(0), ws[i]);
        law_states_tell_the_members(path.last());
        assert(lies_in(tree, path.last()));
    }
}

/// A window goes before those in its container, and the tiled children go before
/// the floating ones.
pub proof fn law_windows_are_listed_from_the_root(tree: Json, w: WindowView)
    ensures
        container_window(tree) == Some(w) ==> tree_windows(tree, levels_at(0)).first() == w,
        container_window(tree) is None && tree.at("floating_nodes"@) is None ==> tree_windows(
            tree,
            levels_at(0),
        ) == forest_windows(children(tree, "nodes"@), levels_at(1)),
        container_window(tree) is None ==> forest_windows(
            children(tree, "nodes"@),
            levels_at(1),
        ).is_prefix_of(tree_windows(tree, levels_at(0))),
{
    assert(forest_windows(Seq::empty(), levels_at(1)).len() == 0);
}

// ---------------------------------------------------------------------------
// Workspaces and outputs
// ---------------------------------------------------------------------------
proof fn lemma_workspace_entries(items: Seq<Json>)
    requires
        forall|i: int| 0 <= i < items.len() ==> workspace_entry(#[trigger] items[i]) is Some,
    ensures
        workspace_entries(items).len() == items.len(),
        forall|i: int|
            0 <= i < items.len() ==> Some(#[trigger] workspace_entries(items)[i])
                == workspace_entry(items[i]),
    decreases items.len(),
{
    if items.len() > 0 {
        assert forall|i: int| 0 <= i < items.drop_last().len() implies workspace_entry(
            #[trigger] items.drop_last()[i],
        ) is Some by {
            assert(items.drop_last()[i] == items[i]);
        }
        lemma_workspace_entries(items.drop_last());
        assert(workspace_entry(items[items.len() - 1]) is Some);
    }
}

proof fn lemma_output_entries(items: Seq<Json>)
    requires
        forall|i: int| 0 <= i < items.len() ==> output_entry(#[trigger] items[i]) is Some,
    ensures
        output_entries(items).len() == items.len(),
        forall|i: int|
            0 <= i < items.len() ==> Some(#[trigger] output_entries(items)[i]) == output_entry(
                items[i],
            ),
    decreases items.len(),
{
    if items.len() > 0 {
        assert forall|i: int| 0 <= i < items.drop_last().len() implies output_entry(
            #[trigger] items.drop_last()[i],
        ) is Some by {
            assert(items.drop_last()[i] == items[i]);
        }
        lemma_output_entries(items.drop_last());
        assert(output_entry(items[items.len() - 1]) is Some);
    }
}

/// Workspaces are listed in the order of the answer. Each has the name, the number
/// and the output of its entry, and is active if and only if its entry is focused.
pub proof fn law_workspaces_have_the_members(list: Vec<Json>, i: int)
    requires
        0 <= i < list@.len(),
        forall|k: int|
            0 <= k < list@.len() ==> (#[trigger] list@[k]).at("name"@) is Some && list@[k].at(
                "name"@,
            )->0 is Str,
    ensures
        ({
            let all = workspace_entries(entries(Json::Arr(list)));
            let e = list@[i];
            &&& all.len() == list@.len()
            &&& is_text(e.at("name"@), all[i].name)
            &&& is_text(e.at("name"@), all[i].id.native_id)
            &&& all[i].id.de_type == DesktopEnvironment::Sway
            &&& all[i].is_active <==> e.at("focused"@) == Some(Json::Bool(true))
            &&& forall|n: u32| #[trigger] is_int(e.at("num"@), n as int) ==> all[i].number == n
            &&& forall|o: Seq<char>| #[trigger]
                is_text(e.at("output"@), o) ==> all[i].monitor_ids == seq![
                    IdView { native_id: o, de_type: DesktopEnvironment::Sway },
                ]
            &&& e.at("output"@) is None ==> all[i].monitor_ids.len() == 0
        }),
{
    lemma_workspace_entries(list@);
    assert(Some(workspace_entries(list@)[i]) == workspace_entry(list@[i]));
}

/// Outputs are listed in the order of the answer. Each monitor has the name of its
/// output, lies where the member `rect` says, has the size of the current mode, is
/// primary if and only if the output says so, and shows the workspace it names.
pub proof fn law_monitors_have_the_members(list: Vec<Json>, i: int)
    requires
        0 <= i < list@.len(),
        forall|k: int|
            0 <= k < list@.len() ==> (#[trigger] list@[k]).at("name"@) is Some && list@[k].at(
                "name"@,
            )->0 is Str,
    ensures
        ({
            let all = output_entries(entries(Json::Arr(list)));
            let e = list@[i];
            &&& all.len() == list@.len()
            &&& is_text(e.at("name"@), all[i].name)
            &&& is_text(e.at("name"@), all[i].id.native_id)
            &&& all[i].id.de_type == DesktopEnvironment::Sway
            &&& all[i].is_primary <==> e.at("primary"@) == Some(Json::Bool(true))
            &&& forall|o: Seq<char>| #[trigger]
                is_text(e.at("current_workspace"@), o) ==> all[i].workspace_id == Some(
                    IdView { native_id: o, de_type: DesktopEnvironment::Sway },
                )
            &&& e.at("current_workspace"@) is None ==> all[i].workspace_id is None
            &&& forall|n: int| #[trigger]
                is_int(e.at("scale"@), n) ==> all[i].scale == Some(dec_int(n))
            &&& e.at("scale"@) is None ==> all[i].scale is None
            &&& e.at("rect"@) matches Some(r) ==> {
                &&& forall|n: i32| #[trigger]
                    is_int(r.at("x"@), n as int) ==> all[i].geometry.x == n
                &&& forall|n: i32| #[trigger]
                    is_int(r.at("y"@), n as int) ==> all[i].geometry.y == n
                &&& forall|n: i32| #[trigger]
                    is_int(r.at("width"@), n as int) ==> all[i].geometry.width == n
                &&& forall|n: i32| #[trigger]
                    is_int(r.at("height"@), n as int) ==> all[i].geometry.height == n
            }
            &&& e.at("current_mode"@) matches Some(m) ==> {
                &&& forall|n: i32| #[trigger]
                    is_int(m.at("width"@), n as int) ==> all[i].physical_geometry.width == n
                &&& forall|n: i32| #[trigger]
                    is_int(m.at("height"@), n as int) ==> all[i].physical_geometry.height == n
            }
            &&& all[i].physical_geometry.x == 0
            &&& all[i].physical_geometry.y == 0
        }),
{
    lemma_output_entries(list@);
    assert(Some(output_entries(list@)[i]) == output_entry(list@[i]));
}

// ---------------------------------------------------------------------------
// Events
// ---------------------------------------------------------------------------
/// A new window is reported as opened, and is then the last one known.
pub proof fn law_new_window_is_reported(ws: Seq<WindowView>, event: Json, c: Json, w: WindowView)
    requires
        is_text(event.at("change"@), "new"@),
        event.at("container"@) == Some(c),
        container_window(c) == Some(w),
    ensures
        on_frame(ws, 0x8000_0003, event) == (
            ws.push(w),
            Some(EventView::WindowOpened { info: w, source: EventSource::Sway }),
        ),
{
    lemma_change_words();
    assert(c.uint_of("id"@) is Some);
}

/// The words for a change differ from each other.
proof fn lemma_change_words()
    ensures
        "new"@.len() == 3,
        "close"@.len() == 5,
        "focus"@.len() == 5,
        "close"@[0] == 'c',
        "focus"@[0] == 'f',
        "move"@.len() == 4,
        "init"@.len() == 4,
        "init"@[0] == 'i',
        "title"@.len() == 5,
        "title"@[0] == 't',
        "empty"@.len() == 5,
        "empty"@[0] == 'e',
        "mark"@.len() == 4,
        "mark"@[1] == 'a',
        "move"@[1] == 'o',
        "floating_node"@.len() == 13,
        "fullscreen_mode"@.len() == 15,
{
    reveal_strlit("new");
    reveal_strlit("close");
    reveal_strlit("focus");
    reveal_strlit("move");
    reveal_strlit("init");
    reveal_strlit("title");
    reveal_strlit("empty");
    reveal_strlit("mark");
    reveal_strlit("floating_node");
    reveal_strlit("fullscreen_mode");
}

/// A closed window is reported by its identifier and is not known any more; the
/// others stay.
pub proof fn law_closed_window_is_reported(ws: Seq<WindowView>, event: Json, c: Json, n: u64)
    requires
        is_text(event.at("change"@), "close"@),
        event.at("container"@) == Some(c),
        is_int(c.at("id"@), n as int),
    ensures
        ({
            let id = IdView { native_id: dec(n as nat), de_type: DesktopEnvironment::Sway };
            let next = on_frame(ws, 0x8000_0003, event);
            &&& next.1 == Some(EventView::WindowClosed { id, source: EventSource::Sway })
            &&& forall|w: WindowView| #[trigger]
                next.0.contains(w) <==> (ws.contains(w) && w.id != id)
        }),
{
    lemma_change_words();
    let id = IdView { native_id: dec(n as nat), de_type: DesktopEnvironment::Sway };
    assert forall|w: WindowView| #[trigger]
        on_frame(ws, 0x8000_0003, event).0.contains(w) <==> (ws.contains(w) && w.id != id) by {
        law_only_the_window_is_taken_away(ws, id, w);
    }
}

/// When the focus moves to a known window, that window is reported with the focus,
/// and it alone counts as normal. No window counts as hidden any more, and nothing
/// but the states changes.
pub proof fn law_focused_window_is_reported(
    ws: Seq<WindowView>,
    event: Json,
    c: Json,
    n: u64,
    i: int,
)
    requires
        is_text(event.at("change"@), "focus"@),
        event.at("container"@) == Some(c),
        is_int(c.at("id"@), n as int),
        0 <= i < ws.len(),
    ensures
        ({
            let id = IdView { native_id: dec(n as nat), de_type: DesktopEnvironment::Sway };
            let next = on_frame(ws, 0x8000_0003, event);
            &&& next.0.len() == ws.len()
            &&& next.0[i] == (WindowView { states: next.0[i].states, ..ws[i] })
            &&& next.0[i].states.contains(WindowState::Normal) <==> ws[i].id == id
            &&& !next.0[i].states.contains(WindowState::Hidden)
            &&& forall|s: WindowState|
                s != WindowState::Normal && s != WindowState::Hidden ==> (
                #[trigger] next.0[i].states.contains(s) <==> ws[i].states.contains(s))
            &&& ws[i].id == id ==> (next.1 matches Some(
                EventView::WindowFocused { info, source: EventSource::Sway },
            ) && info.id == id && info.states.contains(WindowState::Normal))
            &&& (forall|k: int| 0 <= k < ws.len() ==> (#[trigger] ws[k]).id != id)
                ==> next.1 is None
        }),
{
    lemma_change_words();
    let id = IdView { native_id: dec(n as nat), de_type: DesktopEnvironment::Sway };
    let next = on_frame(ws, 0x8000_0003, event);
    assert forall|k: int| 0 <= k < ws.len() implies #[trigger] next.0[k] == after_focus(
        ws[k],
        id,
    ) by {}
    law_one_window_has_the_focus(ws, c, id, i);
    lemma_after_focus(ws[i], id);
    law_window_is_found_by_its_identity(next.0, id);
    if let Some(w) = find_window(next.0, id) {
        let k = choose|k: int| 0 <= k < next.0.len() && #[trigger] next.0[k] == w;
        law_one_window_has_the_focus(ws, c, id, k);
        assert(ws[k].id == id);
    } else if ws[i].id == id {
        assert(next.0[i].id == id);
    }
}

proof fn lemma_after_focus(w: WindowView, id: IdView)
    ensures
        !after_focus(w, id).states.contains(WindowState::Hidden),
        forall|s: WindowState|
            s != WindowState::Normal && s != WindowState::Hidden ==> (#[trigger] after_focus(
                w,
                id,
            ).states.contains(s) <==> w.states.contains(s)),
{
    let keep = |s: WindowState| stays(s, w.id == id);
    let kept = w.states.filter(keep);
    let after = after_focus(w, id).states;
    assert forall|s: WindowState| s != WindowState::Normal implies (#[trigger] after.contains(s)
        <==> kept.contains(s)) by {
        if after.contains(s) {
            let k = choose|k: int| 0 <= k < after.len() && after[k] == s;
            assert(kept[k] == s);
        }
        if kept.contains(s) {
            let k = choose|k: int| 0 <= k < kept.len() && kept[k] == s;
            assert(after[k] == s);
        }
    }
    assert forall|s: WindowState| #[trigger] kept.contains(s) <==> w.states.contains(s) && keep(
        s,
    ) by {
        lemma_filter_keeps(w.states, keep, s);
    }
}

/// A moved window is reported with the rectangle of its content, and is then known
/// there; the windows with other identifiers stay as they were.
pub proof fn law_moved_window_is_reported(
    ws: Seq<WindowView>,
    event: Json,
    c: Json,
    n: u64,
    j: Json,
    g: Rect,
    i: int,
)
    requires
        is_text(event.at("change"@), "move"@),
        event.at("container"@) == Some(c),
        is_int(c.at("id"@), n as int),
        c.at("geometry"@) == Some(j),
        is_int(j.at("x"@), g.x as int),
        is_int(j.at("y"@), g.y as int),
        is_int(j.at("width"@), g.width as int),
        is_int(j.at("height"@), g.height as int),
        0 <= i < ws.len(),
    ensures
        ({
            let id = IdView { native_id: dec(n as nat), de_type: DesktopEnvironment::Sway };
            let next = on_frame(ws, 0x8000_0003, event);
            &&& next.1 == Some(
                EventView::WindowMoved { id, geometry: g, source: EventSource::Sway },
            )
            &&& next.0.len() == ws.len()
            &&& next.0[i].id == ws[i].id
            &&& ws[i].id == id ==> next.0[i].geometry == g && next.0[i].states == ws[i].states
            &&& ws[i].id.native_id != dec(n as nat) ==> next.0[i] == ws[i]
        }),
{
    lemma_change_words();
}

/// A changed title is reported, and the window is then known by it.
pub proof fn law_changed_title_is_reported(
    ws: Seq<WindowView>,
    event: Json,
    c: Json,
    n: u64,
    title: Seq<char>,
    app: Seq<char>,
    i: int,
)
    requires
        is_text(event.at("change"@), "title"@),
        event.at("container"@) == Some(c),
        is_int(c.at("id"@), n as int),
        is_text(c.at("name"@), title),
        is_text(c.at("app_id"@), app),
        0 <= i < ws.len(),
    ensures
        ({
            let id = IdView { native_id: dec(n as nat), de_type: DesktopEnvironment::Sway };
            let next = on_frame(ws, 0x8000_0003, event);
            &&& next.1 == Some(
                EventView::WindowMetadataChanged {
                    id,
                    title: Some(title),
                    app_id: Some(app),
                    source: EventSource::Sway,
                },
            )
            &&& next.0.len() == ws.len()
            &&& ws[i].id == id ==> next.0[i].title == title && next.0[i].id == id
            &&& ws[i].id.native_id != dec(n as nat) ==> next.0[i] == ws[i]
        }),
{
    lemma_change_words();
}

/// A workspace that comes up or gets the focus is reported by the name in its member
/// `current`; it is active unless it is reported as not focused.
pub proof fn law_workspace_change_is_reported(
    ws: Seq<WindowView>,
    event: Json,
    c: Json,
    name: Seq<char>,
)
    requires
        is_text(event.at("change"@), "init"@) || is_text(event.at("change"@), "focus"@),
        event.at("current"@) == Some(c),
        is_text(c.at("name"@), name),
    ensures
        ({
            let next = on_frame(ws, 0x8000_0000, event);
            &&& next.0 == ws
            &&& next.1 matches Some(
                EventView::WorkspaceChanged { info, source: EventSource::Sway },
            ) && info.name == name && info.id == (IdView {
                native_id: name,
                de_type: DesktopEnvironment::Sway,
            }) && (info.is_active <==> c.at("focused"@) != Some(Json::Bool(false))) && (forall|
                n: u32,
            | #[trigger]
                is_int(c.at("num"@), n as int) ==> info.number == n)
        }),
{
}

/// An emptied workspace is reported as a change of the list, and a workspace event
/// never changes the windows.
pub proof fn law_emptied_workspace_changes_the_list(ws: Seq<WindowView>, event: Json)
    ensures
        on_frame(ws, 0x8000_0000, event).0 == ws,
        is_text(event.at("change"@), "empty"@) ==> (on_frame(ws, 0x8000_0000, event).1 matches Some(
            EventView::WorkspaceListChanged { workspaces, source: EventSource::Sway },
        ) && workspaces.len() == 0),
        event.at("change"@) is None ==> on_frame(ws, 0x8000_0000, event).1 is None,
{
    lemma_change_words();
}

// ---------------------------------------------------------------------------
// Commands
// ---------------------------------------------------------------------------
/// The whole command for a window: which container it is for, and what is done.
pub proof fn law_commands_say_what_is_done(id: Seq<char>, x: i32, y: i32, w: i32, h: i32)
    ensures
        on_container(id, window_command(WindowCommand::Focus)) == "[con_id=\""@ + id
            + "\"] focus"@,
        on_container(id, window_command(WindowCommand::Close)) == "[con_id=\""@ + id
            + "\"] kill"@,
        on_container(id, window_command(WindowCommand::Minimize)) == "[con_id=\""@ + id
            + "\"] move to scratchpad"@,
        on_container(id, window_command(WindowCommand::Unminimize)) == "[con_id=\""@ + id
            + "\"] scratchpad show"@,
        on_container(id, window_command(WindowCommand::Maximize)) == "[con_id=\""@ + id
            + "\"] fullscreen enable"@,
        on_container(id, window_command(WindowCommand::Move { x, y })) == "[con_id=\""@ + id
            + "\"] move position "@ + dec_int(x as int) + " "@ + dec_int(y as int),
        on_container(id, window_command(WindowCommand::Resize { w, h })) == "[con_id=\""@ + id
            + "\"] resize set "@ + dec_int(w as int) + " "@ + dec_int(h as int),
        on_container(
            id,
            window_command(WindowCommand::SetGeometry(Rect { x, y, width: w, height: h })),
        ) == "[con_id=\""@ + id + "\"] floating enable, resize set "@ + dec_int(w as int) + " "@
            + dec_int(h as int) + ", move position "@ + dec_int(x as int) + " "@ + dec_int(
            y as int,
        ),
{
    reveal_strlit("\"] ");
    reveal_strlit("focus");
    reveal_strlit("\"] focus");
    reveal_strlit("kill");
    reveal_strlit("\"] kill");
    reveal_strlit("move to scratchpad");
    reveal_strlit("\"] move to scratchpad");
    reveal_strlit("scratchpad show");
    reveal_strlit("\"] scratchpad show");
    reveal_strlit("fullscreen enable");
    reveal_strlit("\"] fullscreen enable");
    reveal_strlit("move position");
    reveal_strlit("\"] move position ");
    reveal_strlit("resize set");
    reveal_strlit("\"] resize set ");
    reveal_strlit(" ");
    reveal_strlit(", ");
    reveal_strlit("floating enable, ");
    reveal_strlit("\"] floating enable, resize set ");
    reveal_strlit(", move position ");
    assert("\"] "@ + "focus"@ == "\"] focus"@);
    assert("\"] "@ + "kill"@ == "\"] kill"@);
    assert("\"] "@ + "move to scratchpad"@ == "\"] move to scratchpad"@);
    assert("\"] "@ + "scratchpad show"@ == "\"] scratchpad show"@);
    assert("\"] "@ + "fullscreen enable"@ == "\"] fullscreen enable"@);
    assert("\"] "@ + "move position"@ + " "@ == "\"] move position "@);
    assert("\"] "@ + "resize set"@ + " "@ == "\"] resize set "@);
    assert("\"] "@ + "floating enable, "@ + "resize set"@ + " "@
        == "\"] floating enable, resize set "@);
    assert(", "@ + "move position"@ + " "@ == ", move position "@);
}

/// A command was carried out if and only if no entry of the answer says that it was
/// not; the first one that does names the reason.
pub proof fn law_refused_command_is_an_error(command: Seq<char>, list: Vec<Json>)
    ensures
        command_outcome(command, Json::Arr(list)) is Ok <==> forall|i: int|
            0 <= i < list@.len() ==> (#[trigger] list@[i]).at("success"@) != Some(
                Json::Bool(false),
            ),
        forall|i: int, reason: Seq<char>|
            #![trigger is_text(list@[i].at("error"@), reason)]
            0 <= i < list@.len() && list@[i].at("success"@) == Some(Json::Bool(false)) && is_text(
                list@[i].at("error"@),
                reason,
            ) && (forall|k: int|
                0 <= k < i ==> (#[trigger] list@[k]).at("success"@) != Some(Json::Bool(false)))
                ==> command_outcome(command, Json::Arr(list)) == Err::<(), ErrorView>(
                ErrorView::Other("sway ipc: `"@ + command + "` failed: "@ + reason),
            ),
{
    lemma_first_failure(list@);
    assert forall|i: int, reason: Seq<char>|
        #![trigger is_text(list@[i].at("error"@), reason)]
        0 <= i < list@.len() && list@[i].at("success"@) == Some(Json::Bool(false)) && is_text(
            list@[i].at("error"@),
            reason,
        ) && (forall|k: int|
            0 <= k < i ==> (#[trigger] list@[k]).at("success"@) != Some(
                Json::Bool(false),
            )) implies first_failure(list@) == Some(reason) by {
        lemma_failure_at(list@, i);
    }
}

proof fn lemma_first_failure(l: Seq<Json>)
    ensures
        first_failure(l) is None <==> forall|i: int|
            0 <= i < l.len() ==> (#[trigger] l[i]).at("success"@) != Some(Json::Bool(false)),
    decreases l.len(),
{
    if l.len() > 0 && l[0].at("success"@) != Some(Json::Bool(false)) {
        let rest = l.skip(1);
        lemma_first_failure(rest);
        if first_failure(l) is None {
            assert forall|i: int| 0 <= i < l.len() implies (#[trigger] l[i]).at("success"@) != Some(
                Json::Bool(false),
            ) by {
                if i > 0 {
                    assert(rest[i - 1] == l[i]);
                }
            }
        } else {
            let i = choose|i: int|
                0 <= i < rest.len() && (#[trigger] rest[i]).at("success"@) == Some(
                    Json::Bool(false),
                );
            assert(l[i + 1] == rest[i]);
        }
    }
}

proof fn lemma_failure_at(l: Seq<Json>, i: int)
    requires
        0 <= i < l.len(),
        l[i].at("success"@) == Some(Json::Bool(false)),
        forall|k: int| 0 <= k < i ==> (#[trigger] l[k]).at("success"@) != Some(Json::Bool(false)),
    ensures
        first_failure(l) == Some(
            match l[i].str_of("error"@) {
                Some(e) => e,
                None => "unknown error"@,
            },
        ),
    decreases i,
{
    if i > 0 {
        assert(l[0].at("success"@) != Some(Json::Bool(false)));
        assert forall|k: int| 0 <= k < i - 1 implies (#[trigger] l.skip(1)[k]).at("success"@)
            != Some(Json::Bool(false)) by {
            assert(l.skip(1)[k] == l[k + 1]);
        }
        lemma_failure_at(l.skip(1), i - 1);
    }
}

/// The answer to a request for the version states it in the member `full_version`.
pub proof fn law_version_is_the_stated_one(v: Json, t: Seq<char>)
    ensures
        is_text(v.at("full_version"@), t) ==> version_text(v) == t,
        v.at("full_version"@) is None && is_text(v.at("major"@), t) ==> version_text(v) == t,
        v.at("full_version"@) is None && v.at("major"@) is None ==> version_text(v) == "unknown"@,
{
}

/// The numbers of the requests.
pub proof fn law_requests_have_their_numbers()
    ensures
        type_of(IpcCommand::RunCommand) == 0,
        type_of(IpcCommand::GetWorkspaces) == 1,
        type_of(IpcCommand::GetOutputs) == 3,
        type_of(IpcCommand::GetTree) == 4,
        type_of(IpcCommand::Subscribe) == 100,
{
}

/// A message begins with the six bytes of `i3-ipc`; then come the length of the
/// payload and the type, each in four bytes with the lowest first, and the payload.
pub proof fn law_message_is_laid_out(kind: u32, payload: Seq<u8>)
    requires
        payload.len() <= u32::MAX,
    ensures
        frame(kind, payload).take(6) == seq![105u8, 51, 45, 105, 112, 99],
        frame(kind, payload).subrange(6, 10) == spec_u32_to_le_bytes(payload.len() as u32),
        frame(kind, payload).subrange(10, 14) == spec_u32_to_le_bytes(kind),
        frame(kind, payload).skip(14) == payload,
{
    lemma_auto_spec_u32_to_from_le_bytes();
    assert(spec_u32_to_le_bytes(payload.len() as u32).len() == 4);
    assert(spec_u32_to_le_bytes(kind).len() == 4);
    let f = frame(kind, payload);
    assert(f.take(6) =~= seq![105u8, 51, 45, 105, 112, 99]);
    assert(f.subrange(6, 10) =~= spec_u32_to_le_bytes(payload.len() as u32));
    assert(f.subrange(10, 14) =~= spec_u32_to_le_bytes(kind));
    assert(f.skip(14) =~= payload);
}

/// A header is accepted if and only if it begins with these six bytes and its payload
/// is not beyond sixteen mebibytes.
pub proof fn law_header_is_checked(h: Seq<u8>)
    requires
        h.len() == 14,
    ensures
        header_of(h) is Ok <==> h.take(6) == seq![105u8, 51, 45, 105, 112, 99]
            && spec_u32_from_le_bytes(h.subrange(6, 10)) <= 16 * 1024 * 1024,
        header_of(h) matches Ok(p) ==> p.0 == spec_u32_from_le_bytes(h.subrange(6, 10)) && p.1
            == spec_u32_from_le_bytes(h.subrange(10, 14)),
{
    assert(magic() =~= seq![105u8, 51, 45, 105, 112, 99]);
}

/// A subscription is accepted if and only if the answer says so.
pub proof fn law_subscription_is_accepted(body: Seq<char>, v: Json)
    requires
        parsed(body) == Ok::<Json, Seq<char>>(v),
    ensures
        subscribed(body) <==> v.at("success"@) == Some(Json::Bool(true)),
{
}

/// The report marks what is there, and warns of what is not.
pub proof fn law_report_marks_what_is_there(names: Seq<Seq<char>>)
    ensures
        sign(true) == "✓"@,
        sign(false) == "⚠"@,
        names.len() == 0 ==> failure_note(names) == "all ok"@,
        names.len() == 1 && names[0].len() > 0 ==> failure_note(names) == "failed: "@ + names[0],
{
}

/// A workspace is named between quotation marks, with quotation marks and backslashes
/// escaped by a backslash and every other character as it is.
pub proof fn law_workspace_names_are_quoted(name: Seq<char>, c: char)
    ensures
        quoted(name).len() >= 2,
        quoted(name)[0] == '"' && quoted(name).last() == '"',
        escaped(name.push('"')) == escaped(name) + seq!['\\', '"'],
        escaped(name.push('\\')) == escaped(name) + seq!['\\', '\\'],
        c != '"' && c != '\\' ==> escaped(name.push(c)) == escaped(name).push(c),
        escaped(Seq::empty()).len() == 0,
        quoted(name) == seq!['"'] + escaped(name) + seq!['"'],
{
    reveal_strlit("\"");
    assert("\""@ =~= seq!['"']);
    assert(name.push('"').drop_last() =~= name);
    assert(name.push('\\').drop_last() =~= name);
    assert(name.push(c).drop_last() =~= name);
    assert(c != '"' && c != '\\' ==> escaped(name.push(c)) =~= escaped(name).push(c));
}

/// An answer that is JSON is that value, and any other is an error.
pub proof fn law_replies_are_json(body: Seq<char>)
    ensures
        parsed(body) matches Ok(v) ==> reply_value(body) == Ok::<Json, ErrorView>(v),
        parsed(body) is Err ==> reply_value(body) is Err,
{
}

/// The report names what is bound, the version with its time, and the numbers of windows
/// and workspaces; each line warns where its subject is missing.
pub proof fn law_report_has_its_lines(s: SwayReport)
    ensures
        report_lines(s).len() == 3,
        report_lines(s)[0] == (if s.bound > 0 {
            "✓"@
        } else {
            "⚠"@
        }) + " Wayland 协议 : "@ + dec(s.bound as nat) + "/7 globals bound ("@ + failure_note(
            texts(s.failures@),
        ) + ")"@,
        report_lines(s)[1] == (if s.version@ != "unknown"@ {
            "✓"@
        } else {
            "⚠"@
        }) + " Sway IPC     : "@ + s.version@ + " (SWAYSOCK, roundtrip "@ + s.millis@ + "ms)"@,
        report_lines(s)[2] == "✓ 桌面状态     : "@ + dec(s.windows as nat) + " 窗口 / "@ + dec(
            s.workspaces as nat,
        ) + " 工作区"@,
{
}

/// An answer that is no JSON is refused with the reason, and any other is that value.
pub proof fn law_answers_are_json(body: Seq<char>)
    ensures
        parsed(body) matches Ok(v) ==> reply_value(body) == Ok::<Json, ErrorView>(v),
        parsed(body) matches Err(e) ==> reply_value(body) == Err::<Json, ErrorView>(
            ErrorView::Other("sway ipc: invalid JSON reply: "@ + e),
        ),
{
}

/// The bytes of a text say that text.
pub proof fn law_payload_says_its_text(text: Seq<char>)
    ensures
        payload_of(encode_utf8(text)) == Ok::<Seq<char>, ErrorView>(text),
{
    encode_utf8_valid_utf8(text);
    encode_utf8_decode_utf8(text);
}

/// A window is as high in the stack as its container has entries in the list of focus, and
/// what a container does not tell is left empty.
pub proof fn law_focus_list_gives_the_stacking_order(c: Json)
    ensures
        container_window(c) matches Some(w) ==> (c.items_of("focus"@) matches Some(a)
            ==> w.stacking_order == a.len() as u32) && (c.items_of("focus"@) is None
            ==> w.stacking_order == 0) && w.desktop_file is None && w.window_type
            == WindowType::Normal && w.icon_geometry is None && !w.keep_above,
{
}

/// An output without a current mode has no numbers of it.
pub proof fn law_missing_mode_has_no_numbers(o: Json, key: Seq<char>)
    requires
        o.at("current_mode"@) is None,
    ensures
        mode_number(o, key) == 0,
{
}

/// The tree is read down to sixty-four levels below its root, and no deeper.
pub proof fn law_levels_are_counted_down(depth: usize)
    ensures
        depth <= 64 ==> levels_at(depth) + depth == 65,
        depth > 64 ==> levels_at(depth) == 0,
{
}

} // verus!
