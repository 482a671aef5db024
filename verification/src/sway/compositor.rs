//! The Sway compositor component: reading trees, workspaces and outputs, and the
//! commands that act on windows.

use vstd::prelude::*;
use vstd::string::*;

use crate::hyprland::compositor::entries;
use crate::json::{i32_or_zero, low_i32, low_u32, read_rect, rect_in, u32_or_zero, Json};
use crate::sway::event::{container_window, named, parse_window_info, sway};
use crate::text::{
    cat, cat3, chars_of, dec, dec_int, dec_int_of, dec_of, join, joined, lemma_texts_push, owned,
    same, texts,
};
use crate::types::{
    has_state, lemma_views_push, opt_view, views, BackendCapabilities, ComponentHealth,
    DesktopEnvironment, HealthView, MonitorId, MonitorInfo, MonitorView, Rect, WindowInfo,
    WindowState, WindowView, WorkspaceId, WorkspaceInfo, WorkspaceView,
};

verus! {

/// How deep the tree of containers is followed.
pub const MAX_DEPTH: usize = 64;

// ---------------------------------------------------------------------------
// The tree
// ---------------------------------------------------------------------------
/// The items of the array member called `key`; without one there are none.
pub open spec fn children(node: Json, key: Seq<char>) -> Seq<Json> {
    match node.items_of(key) {
        Some(a) => a,
        None => Seq::empty(),
    }
}

/// The windows of a container and of what it holds, down to so many levels: the
/// container itself, then the tiled children, then the floating ones.
pub open spec fn tree_windows(node: Json, levels: nat) -> Seq<WindowView>
    decreases levels, 0nat,
{
    if levels == 0 {
        Seq::empty()
    } else {
        let own = match container_window(node) {
            Some(w) => seq![w],
            None => Seq::empty(),
        };
        own + forest_windows(children(node, "nodes"@), (levels - 1) as nat) + forest_windows(
            children(node, "floating_nodes"@),
            (levels - 1) as nat,
        )
    }
}

/// The windows of several containers, one after the other.
pub open spec fn forest_windows(nodes: Seq<Json>, levels: nat) -> Seq<WindowView>
    decreases levels, nodes.len() + 1,
{
    if nodes.len() == 0 {
        Seq::empty()
    } else {
        forest_windows(nodes.drop_last(), levels) + tree_windows(nodes.last(), levels)
    }
}

/// The levels that are left at a depth.
pub open spec fn levels_at(depth: usize) -> nat {
    if depth > MAX_DEPTH {
        0
    } else {
        (MAX_DEPTH + 1 - depth) as nat
    }
}

fn collect_list(nodes: &Vec<Json>, depth: usize, out: &mut Vec<WindowInfo>)
    requires
        1 <= depth <= MAX_DEPTH + 1,
    ensures
        views(final(out)@) == views(old(out)@) + forest_windows(nodes@, levels_at(depth)),
    decreases MAX_DEPTH + 1 - depth, 1int,
{
    let ghost before = views(out@);
    let ghost levels = levels_at(depth);
    let mut i: usize = 0;
    assert(views(out@) =~= before + forest_windows(nodes@.take(0), levels));
    while i < nodes.len()
        invariant
            i <= nodes.len(),
            1 <= depth <= MAX_DEPTH + 1,
            levels == levels_at(depth),
            views(out@) == before + forest_windows(nodes@.take(i as int), levels),
        decreases nodes.len() - i,
    {
        assert(nodes@.take(i as int + 1).drop_last() =~= nodes@.take(i as int));
        collect_windows(&nodes[i], depth, out);
        i = i + 1;
        assert(views(out@) =~= before + forest_windows(nodes@.take(i as int), levels));
    }
    assert(nodes@.take(i as int) =~= nodes@);
}

/// Appends the windows of a container at a depth, and of what it holds. Beyond
/// the limit nothing is followed.
pub fn collect_windows(node: &Json, depth: usize, out: &mut Vec<WindowInfo>)
    ensures
        views(final(out)@) == views(old(out)@) + tree_windows(*node, levels_at(depth)),
    decreases
            if depth > MAX_DEPTH {
                0
            } else {
                MAX_DEPTH + 1 - depth
            },
            0int,
{
    broadcast use lemma_views_push;

    let ghost before = views(out@);
    let ghost levels = levels_at(depth);
    if depth > MAX_DEPTH {
        assert(views(out@) =~= before + tree_windows(*node, levels));
        return;
    }
    let ghost own = match container_window(*node) {
        Some(w) => seq![w],
        None => Seq::empty(),
    };
    if let Some(w) = parse_window_info(node) {
        out.push(w);
    }
    assert(views(out@) =~= before + own);
    let ghost tiled = forest_windows(children(*node, "nodes"@), (levels - 1) as nat);
    let ghost floating = forest_windows(children(*node, "floating_nodes"@), (levels - 1) as nat);
    if let Some(nodes) = node.get_array("nodes") {
        collect_list(nodes, depth + 1, out);
    }
    assert(views(out@) =~= before + own + tiled);
    if let Some(nodes) = node.get_array("floating_nodes") {
        collect_list(nodes, depth + 1, out);
    }
    assert(views(out@) =~= before + own + tiled + floating);
    assert(before + own + tiled + floating =~= before + (own + tiled + floating));
}

/// The Sway component. What it learns over its socket is handed to it.
#[derive(Debug)]
pub struct SwayCompositor {}

/// The windows in the order in which they are stacked: each one's place in the list
/// is its stacking order.
pub open spec fn stacked(ws: Seq<WindowView>) -> Seq<WindowView> {
    Seq::new(ws.len(), |i: int| WindowView { stacking_order: i as u32, ..ws[i] })
}

impl SwayCompositor {
    /// The windows of a whole tree. They are stacked as the tree is walked, which
    /// goes by the focus.
    pub fn query_windows(tree: &Json) -> (r: Vec<WindowInfo>)
        ensures
            views(r@) == stacked(tree_windows(*tree, levels_at(0))),
    {
        broadcast use lemma_views_push;

        let mut found: Vec<WindowInfo> = Vec::new();
        collect_windows(tree, 0, &mut found);
        let ghost all = tree_windows(*tree, levels_at(0));
        assert(views(found@) =~= all);
        let mut out: Vec<WindowInfo> = Vec::new();
        let mut i: usize = 0;
        assert(views(out@) =~= stacked(all).take(0));
        while i < found.len()
            invariant
                i <= found.len(),
                views(found@) == all,
                views(out@) == stacked(all).take(i as int),
            decreases found.len() - i,
        {
            assert(all[i as int] == found@[i as int]@);
            let mut w = found[i].clone();
            w.stacking_order = i as u32;
            assert(w@ == stacked(all)[i as int]);
            let ghost had = views(out@);
            out.push(w);
            assert(views(out@) == had.push(stacked(all)[i as int]));
            i = i + 1;
            assert(views(out@) =~= stacked(all).take(i as int));
        }
        assert(stacked(all).take(i as int) =~= stacked(all));
        out
    }
}

/// The first window that counts as normal: the one with the focus.
pub open spec fn first_normal(ws: Seq<WindowView>) -> Option<WindowView>
    decreases ws.len(),
{
    if ws.len() == 0 {
        None
    } else if ws[0].states.contains(WindowState::Normal) {
        Some(ws[0])
    } else {
        first_normal(ws.skip(1))
    }
}

impl SwayCompositor {
    /// The window with the focus.
    pub fn get_active_window(ws: &Vec<WindowInfo>) -> (r: Option<WindowInfo>)
        ensures
            opt_view(r) == first_normal(views(ws@)),
    {
        let ghost all = views(ws@);
        let mut i: usize = 0;
        assert(all.skip(0) =~= all);
        while i < ws.len()
            invariant
                i <= ws.len(),
                all == views(ws@),
                first_normal(all) == first_normal(all.skip(i as int)),
            decreases ws.len() - i,
        {
            assert(all[i as int] == ws@[i as int]@);
            if has_state(&ws[i].states, WindowState::Normal) {
                return Some(ws[i].clone());
            }
            assert(all.skip(i as int).skip(1) =~= all.skip(i as int + 1));
            i = i + 1;
        }
        None
    }
}

// ---------------------------------------------------------------------------
// Workspaces and outputs
// ---------------------------------------------------------------------------
/// The workspace that an entry describes; without a name there is none.
pub open spec fn workspace_entry(ws: Json) -> Option<WorkspaceView> {
    match ws.str_of("name"@) {
        None => None,
        Some(name) => Some(
            WorkspaceView {
                id: sway(name),
                name,
                number: low_u32(ws.uint_of("num"@)),
                is_active: ws.bool_of("focused"@) == Some(true),
                monitor_ids: match ws.str_of("output"@) {
                    Some(o) => seq![sway(o)],
                    None => Seq::empty(),
                },
                window_ids: Seq::empty(),
            },
        ),
    }
}

/// The workspaces among the entries.
pub open spec fn workspace_entries(items: Seq<Json>) -> Seq<WorkspaceView>
    decreases items.len(),
{
    if items.len() == 0 {
        Seq::empty()
    } else {
        let front = workspace_entries(items.drop_last());
        match workspace_entry(items.last()) {
            Some(w) => front.push(w),
            None => front,
        }
    }
}

/// The number in a member of the current mode, cut down to 32 bits, or zero.
pub open spec fn mode_number(o: Json, key: Seq<char>) -> i32 {
    match o.at("current_mode"@) {
        Some(m) => low_i32(m.int_of(key)),
        None => 0,
    }
}

/// The monitor that an output describes; without a name there is none.
pub open spec fn output_entry(o: Json) -> Option<MonitorView> {
    match o.str_of("name"@) {
        None => None,
        Some(name) => Some(
            MonitorView {
                id: sway(name),
                name,
                geometry: rect_in(o.at("rect"@)),
                physical_geometry: Rect {
                    x: 0,
                    y: 0,
                    width: mode_number(o, "width"@),
                    height: mode_number(o, "height"@),
                },
                scale: o.number_of("scale"@),
                is_primary: o.bool_of("primary"@) == Some(true),
                workspace_id: named(o.str_of("current_workspace"@)),
            },
        ),
    }
}

/// The monitors among the outputs.
pub open spec fn output_entries(items: Seq<Json>) -> Seq<MonitorView>
    decreases items.len(),
{
    if items.len() == 0 {
        Seq::empty()
    } else {
        let front = output_entries(items.drop_last());
        match output_entry(items.last()) {
            Some(m) => front.push(m),
            None => front,
        }
    }
}

fn parse_workspace(ws: &Json) -> (r: Option<WorkspaceInfo>)
    ensures
        opt_view(r) == workspace_entry(*ws),
{
    let name = match ws.get_str("name") {
        Some(n) => owned(n),
        None => return None,
    };
    let mut monitor_ids: Vec<MonitorId> = Vec::new();
    if let Some(o) = ws.get_str("output") {
        monitor_ids.push(MonitorId { native_id: owned(o), de_type: DesktopEnvironment::Sway });
    }
    let is_active = match ws.get_bool("focused") {
        Some(f) => f,
        None => false,
    };
    let w = WorkspaceInfo {
        id: WorkspaceId { native_id: name.clone(), de_type: DesktopEnvironment::Sway },
        name,
        number: u32_or_zero(ws.get_u64("num")),
        is_active,
        monitor_ids,
        window_ids: Vec::new(),
    };
    assert(Some(w@) =~= workspace_entry(*ws));
    Some(w)
}

fn mode_part(o: &Json, key: &str) -> (r: i32)
    ensures
        r == mode_number(*o, key@),
{
    match o.get("current_mode") {
        Some(m) => i32_or_zero(m.get_i64(key)),
        None => 0,
    }
}

/// The monitor that an output describes.
pub fn parse_monitor(o: &Json) -> (r: Option<MonitorInfo>)
    ensures
        opt_view(r) == output_entry(*o),
{
    let name = match o.get_str("name") {
        Some(n) => owned(n),
        None => return None,
    };
    let workspace_id = match o.get_str("current_workspace") {
        Some(n) => Some(WorkspaceId { native_id: owned(n), de_type: DesktopEnvironment::Sway }),
        None => None,
    };
    let is_primary = match o.get_bool("primary") {
        Some(p) => p,
        None => false,
    };
    let m = MonitorInfo {
        id: MonitorId { native_id: name.clone(), de_type: DesktopEnvironment::Sway },
        name,
        geometry: read_rect(o.get("rect")),
        physical_geometry: Rect {
            x: 0,
            y: 0,
            width: mode_part(o, "width"),
            height: mode_part(o, "height"),
        },
        scale: o.get_number("scale"),
        is_primary,
        workspace_id,
    };
    assert(Some(m@) =~= output_entry(*o));
    Some(m)
}

impl SwayCompositor {
    /// The workspaces that an answer lists.
    pub fn query_workspaces(v: &Json) -> (r: Vec<WorkspaceInfo>)
        ensures
            views(r@) == workspace_entries(entries(*v)),
    {
        broadcast use lemma_views_push;

        let mut out: Vec<WorkspaceInfo> = Vec::new();
        let items = match v.as_array() {
            Some(a) => a,
            None => {
                assert(views(out@) =~= workspace_entries(entries(*v)));
                return out;
            },
        };
        let mut i: usize = 0;
        assert(views(out@) =~= workspace_entries(items@.take(0)));
        while i < items.len()
            invariant
                i <= items.len(),
                views(out@) == workspace_entries(items@.take(i as int)),
            decreases items.len() - i,
        {
            assert(items@.take(i as int + 1).drop_last() =~= items@.take(i as int));
            if let Some(w) = parse_workspace(&items[i]) {
                out.push(w);
            }
            i = i + 1;
        }
        assert(items@.take(i as int) =~= items@);
        out
    }

    /// The monitors that an answer lists.
    pub fn query_monitors(v: &Json) -> (r: Vec<MonitorInfo>)
        ensures
            views(r@) == output_entries(entries(*v)),
    {
        broadcast use lemma_views_push;

        let mut out: Vec<MonitorInfo> = Vec::new();
        let items = match v.as_array() {
            Some(a) => a,
            None => {
                assert(views(out@) =~= output_entries(entries(*v)));
                return out;
            },
        };
        let mut i: usize = 0;
        assert(views(out@) =~= output_entries(items@.take(0)));
        while i < items.len()
            invariant
                i <= items.len(),
                views(out@) == output_entries(items@.take(i as int)),
            decreases items.len() - i,
        {
            assert(items@.take(i as int + 1).drop_last() =~= items@.take(i as int));
            if let Some(m) = parse_monitor(&items[i]) {
                out.push(m);
            }
            i = i + 1;
        }
        assert(items@.take(i as int) =~= items@);
        out
    }
}

// ---------------------------------------------------------------------------
// Commands
// ---------------------------------------------------------------------------
/// The command `cmd` for the container with an identifier.
pub open spec fn on_container(id: Seq<char>, cmd: Seq<char>) -> Seq<char> {
    "[con_id=\""@ + id + "\"] "@ + cmd
}

/// A command with two numbers.
pub open spec fn with_numbers(verb: Seq<char>, a: int, b: int) -> Seq<char> {
    verb + " "@ + dec_int(a) + " "@ + dec_int(b)
}

/// How a character of a workspace name is written between quotation marks.
pub open spec fn escape(c: char) -> Seq<char> {
    if c == '\\' {
        seq!['\\', '\\']
    } else if c == '"' {
        seq!['\\', '"']
    } else {
        seq![c]
    }
}

/// How a workspace name is written between quotation marks.
pub open spec fn escaped(s: Seq<char>) -> Seq<char>
    decreases s.len(),
{
    if s.len() == 0 {
        Seq::empty()
    } else {
        escaped(s.drop_last()) + escape(s.last())
    }
}

/// A workspace name between quotation marks.
pub open spec fn quoted(name: Seq<char>) -> Seq<char> {
    "\""@ + escaped(name) + "\""@
}

/// What stands between quotation marks denotes; a quotation mark that is not
/// escaped would end the name and is refused.
pub open spec fn unescaped(t: Seq<char>) -> Option<Seq<char>>
    decreases t.len(),
{
    if t.len() == 0 {
        Some(Seq::empty())
    } else if t[0] == '"' {
        None
    } else if t[0] != '\\' {
        match unescaped(t.skip(1)) {
            Some(s) => Some(seq![t[0]] + s),
            None => None,
        }
    } else if t.len() >= 2 && (t[1] == '\\' || t[1] == '"') {
        match unescaped(t.skip(2)) {
            Some(s) => Some(seq![t[1]] + s),
            None => None,
        }
    } else {
        None
    }
}

proof fn lemma_escaped_front(s: Seq<char>)
    requires
        s.len() > 0,
    ensures
        escaped(s) == escape(s[0]) + escaped(s.skip(1)),
    decreases s.len(),
{
    if s.len() == 1 {
        assert(s.drop_last() =~= Seq::<char>::empty());
        assert(s.skip(1) =~= Seq::<char>::empty());
        assert(escaped(s) =~= escape(s[0]) + escaped(s.skip(1)));
    } else {
        lemma_escaped_front(s.drop_last());
        assert(s.drop_last().skip(1) =~= s.skip(1).drop_last());
        assert(escaped(s) =~= escape(s[0]) + escaped(s.skip(1)));
    }
}

/// A quoted name denotes exactly the workspace it was made from: no character of
/// the name ends it early.
pub proof fn law_quoted_name_denotes_workspace(name: Seq<char>)
    ensures
        unescaped(escaped(name)) == Some(name),
    decreases name.len(),
{
    if name.len() > 0 {
        lemma_escaped_front(name);
        law_quoted_name_denotes_workspace(name.skip(1));
        let t = escaped(name);
        if name[0] == '\\' || name[0] == '"' {
            assert(t.skip(2) =~= escaped(name.skip(1)));
        } else {
            assert(t.skip(1) =~= escaped(name.skip(1)));
        }
        assert(seq![name[0]] + name.skip(1) =~= name);
    }
}

fn escape_name(s: &str) -> (r: String)
    ensures
        r@ == escaped(s@),
{
    let v = chars_of(s);
    let mut out = String::new();
    let mut i: usize = 0;
    assert(out@ =~= escaped(s@.take(0)));
    while i < v.len()
        invariant
            i <= v.len(),
            v@ == s@,
            out@ == escaped(s@.take(i as int)),
        decreases v.len() - i,
    {
        let ghost had = out@;
        if v[i] == '\\' || v[i] == '"' {
            out.push('\\');
        }
        out.push(v[i]);
        assert(out@ =~= had + escape(s@[i as int]));
        assert(s@.take(i as int + 1).drop_last() =~= s@.take(i as int));
        i = i + 1;
    }
    assert(s@.take(i as int) =~= s@);
    out
}

fn quote_name(s: &str) -> (r: String)
    ensures
        r@ == quoted(s@),
{
    let e = escape_name(s);
    cat3("\"", e.as_str(), "\"")
}

impl SwayCompositor {
    /// The command `cmd` for the container with an identifier.
    pub fn dispatch(selector: &str, cmd: &str) -> (r: String)
        ensures
            r@ == on_container(selector@, cmd@),
    {
        let mut out = cat3("[con_id=\"", selector, "\"] ");
        out.append(cmd);
        out
    }
}

fn numbers(verb: &str, a: i32, b: i32) -> (r: String)
    ensures
        r@ == with_numbers(verb@, a as int, b as int),
{
    let x = dec_int_of(a as i64);
    let y = dec_int_of(b as i64);
    let mut out = cat3(verb, " ", x.as_str());
    out.append(" ");
    out.append(y.as_str());
    out
}

/// What can be done with a window.
pub enum WindowCommand {
    Focus,
    Move { x: i32, y: i32 },
    Resize { w: i32, h: i32 },
    Minimize,
    Unminimize,
    Maximize,
    Close,
    SetGeometry(Rect),
}

/// The command for a window.
pub open spec fn window_command(c: WindowCommand) -> Seq<char> {
    match c {
        WindowCommand::Focus => "focus"@,
        WindowCommand::Move { x, y } => with_numbers("move position"@, x as int, y as int),
        WindowCommand::Resize { w, h } => with_numbers("resize set"@, w as int, h as int),
        WindowCommand::Minimize => "move to scratchpad"@,
        WindowCommand::Unminimize => "scratchpad show"@,
        WindowCommand::Maximize => "fullscreen enable"@,
        WindowCommand::Close => "kill"@,
        WindowCommand::SetGeometry(g) => "floating enable, "@ + with_numbers(
            "resize set"@,
            g.width as int,
            g.height as int,
        ) + ", "@ + with_numbers("move position"@, g.x as int, g.y as int),
    }
}

impl SwayCompositor {
    /// The whole command for a window. Setting a geometry lets the window float
    /// first.
    pub fn command_for(id: &str, c: &WindowCommand) -> (r: String)
        ensures
            r@ == on_container(id@, window_command(*c)),
    {
        let cmd = match c {
            WindowCommand::Focus => owned("focus"),
            WindowCommand::Move { x, y } => numbers("move position", *x, *y),
            WindowCommand::Resize { w, h } => numbers("resize set", *w, *h),
            WindowCommand::Minimize => owned("move to scratchpad"),
            WindowCommand::Unminimize => owned("scratchpad show"),
            WindowCommand::Maximize => owned("fullscreen enable"),
            WindowCommand::Close => owned("kill"),
            WindowCommand::SetGeometry(g) => {
                let size = numbers("resize set", g.width, g.height);
                let place = numbers("move position", g.x, g.y);
                let mut out = cat3("floating enable, ", size.as_str(), ", ");
                out.append(place.as_str());
                out
            },
        };
        SwayCompositor::dispatch(id, cmd.as_str())
    }

    /// The command that switches to a workspace.
    pub fn activate_workspace(name: &str) -> (r: String)
        ensures
            r@ == "workspace "@ + quoted(name@),
    {
        let q = quote_name(name);
        cat("workspace ", q.as_str())
    }

    /// The command that moves a window to a workspace.
    pub fn move_window_to_workspace(id: &str, name: &str) -> (r: String)
        ensures
            r@ == on_container(id@, "move container to workspace "@ + quoted(name@)),
    {
        let q = quote_name(name);
        let cmd = cat("move container to workspace ", q.as_str());
        SwayCompositor::dispatch(id, cmd.as_str())
    }
}

// ---------------------------------------------------------------------------
// Reports
// ---------------------------------------------------------------------------
/// The version that an answer states.
pub open spec fn version_text(v: Json) -> Seq<char> {
    let j = match v.at("full_version"@) {
        Some(f) => Some(f),
        None => v.at("major"@),
    };
    match j {
        Some(x) => match x.str() {
            Some(s) => s,
            None => "unknown"@,
        },
        None => "unknown"@,
    }
}

/// The version that an answer states.
pub fn version_of(v: &Json) -> (r: String)
    ensures
        r@ == version_text(*v),
{
    let j = match v.get("full_version") {
        Some(f) => f,
        None => match v.get("major") {
            Some(m) => m,
            None => return owned("unknown"),
        },
    };
    match j.as_str() {
        Some(s) => owned(s),
        None => owned("unknown"),
    }
}

/// What is known of the component when it reports.
pub struct SwayReport {
    pub bound: u64,
    /// The names of the protocols that could not be bound.
    pub failures: Vec<String>,
    pub version: String,
    /// The time of one request in milliseconds, as text.
    pub millis: String,
    pub windows: u64,
    pub workspaces: u64,
}

/// The mark in front of a line.
pub open spec fn sign(good: bool) -> Seq<char> {
    if good {
        "✓"@
    } else {
        "⚠"@
    }
}

fn sign_of(good: bool) -> (r: &'static str)
    ensures
        r@ == sign(good),
{
    if good {
        "✓"
    } else {
        "⚠"
    }
}

/// What the line on the protocols says of failures.
pub open spec fn failure_note(names: Seq<Seq<char>>) -> Seq<char> {
    let detail = join(names, ", "@);
    if detail.len() == 0 {
        "all ok"@
    } else {
        "failed: "@ + detail
    }
}

/// The lines of the diagnostic report.
pub open spec fn report_lines(s: SwayReport) -> Seq<Seq<char>> {
    seq![
        sign(s.bound > 0) + " Wayland 协议 : "@ + dec(s.bound as nat) + "/7 globals bound ("@
            + failure_note(texts(s.failures@)) + ")"@,
        sign(s.version@ != "unknown"@) + " Sway IPC     : "@ + s.version@
            + " (SWAYSOCK, roundtrip "@ + s.millis@ + "ms)"@,
        "✓ 桌面状态     : "@ + dec(s.windows as nat) + " 窗口 / "@ + dec(s.workspaces as nat)
            + " 工作区"@,
    ]
}

impl SwayCompositor {
    /// The lines of the diagnostic report.
    pub fn doctor_lines(s: &SwayReport) -> (r: Vec<String>)
        ensures
            texts(r@) == report_lines(*s),
    {
        broadcast use lemma_texts_push;

        let mut lines: Vec<String> = Vec::new();
        let detail = joined(&s.failures, ", ");
        let note = if detail.as_str().is_empty() {
            owned("all ok")
        } else {
            cat("failed: ", detail.as_str())
        };
        let bound = dec_of(s.bound);
        let mut first = cat3(sign_of(s.bound > 0), " Wayland 协议 : ", bound.as_str());
        first.append("/7 globals bound (");
        first.append(note.as_str());
        first.append(")");
        lines.push(first);
        let known = !same(s.version.as_str(), "unknown");
        let mut second = cat3(sign_of(known), " Sway IPC     : ", s.version.as_str());
        second.append(" (SWAYSOCK, roundtrip ");
        second.append(s.millis.as_str());
        second.append("ms)");
        lines.push(second);
        let n = dec_of(s.windows);
        let m = dec_of(s.workspaces);
        let mut third = cat3("✓ 桌面状态     : ", n.as_str(), " 窗口 / ");
        third.append(m.as_str());
        third.append(" 工作区");
        lines.push(third);
        assert(texts(lines@) =~= report_lines(*s));
        lines
    }

    /// How well the component works, by what could be bound.
    pub fn health(bound: u64, failures: usize) -> (r: ComponentHealth)
        ensures
            r@ == (if bound == 0 {
                HealthView::Degraded("no wlr protocols; Sway IPC + portal/AT-SPI fallback"@)
            } else if failures == 0 {
                HealthView::Healthy
            } else {
                HealthView::Degraded("wlr protocols partial; IPC fallback"@)
            }),
    {
        if bound == 0 {
            ComponentHealth::Degraded(owned("no wlr protocols; Sway IPC + portal/AT-SPI fallback"))
        } else if failures == 0 {
            ComponentHealth::Healthy
        } else {
            ComponentHealth::Degraded(owned("wlr protocols partial; IPC fallback"))
        }
    }

    /// What the component can do.
    pub fn capabilities(virtual_pointer: bool, screencopy: bool) -> (r: BackendCapabilities)
        ensures
            r == (BackendCapabilities {
                window_management: true,
                workspace_management: true,
                monitor_layout: true,
                window_events: true,
                workspace_events: true,
                native_input: virtual_pointer,
                native_capture: screencopy,
                virtual_desktops: true,
                effects_control: false,
            }),
    {
        BackendCapabilities {
            window_management: true,
            workspace_management: true,
            monitor_layout: true,
            window_events: true,
            workspace_events: true,
            native_input: virtual_pointer,
            native_capture: screencopy,
            virtual_desktops: true,
            effects_control: false,
        }
    }
}

/// Whether the known windows answer a query for all windows: only where there
/// are any.
pub fn cache_answers(known: &Vec<WindowInfo>) -> (r: bool)
    ensures
        r == (known@.len() > 0),
{
    known.len() > 0
}

} // verus!
