//! Window and workspace events, and the known windows that they keep up to date.

use vstd::prelude::*;

use crate::json::{low_u32, or_empty, read_rect, rect_in, u32_or_zero, Json};
use crate::sway::ipc::{EVENT_MASK, EVENT_WINDOW, EVENT_WORKSPACE};
use crate::text::{dec, dec_of, opt_text, owned, same};
use crate::types::{
    find_window, has_state, lemma_views_push, opt_view, pick_window, views, without_window,
    DesktopEnvironment, DesktopEvent, EventSource, EventView, IdView, MonitorId, Rect, WindowId,
    WindowInfo, WindowState, WindowType, WindowView, WorkspaceId, WorkspaceInfo, WorkspaceView,
};

verus! {

/// The events that are subscribed to.
pub const SUBSCRIBED_EVENTS: &'static str = "[\"workspace\",\"window\"]";

/// An identity of Sway.
pub open spec fn sway(id: Seq<char>) -> IdView {
    IdView { native_id: id, de_type: DesktopEnvironment::Sway }
}

/// The identity with a name, if there is one.
pub open spec fn named(n: Option<Seq<char>>) -> Option<IdView> {
    match n {
        Some(s) => Some(sway(s)),
        None => None,
    }
}

// ---------------------------------------------------------------------------
// Containers
// ---------------------------------------------------------------------------
/// Whether a member is switched on: a number above zero, or true.
pub open spec fn switched_on(c: Json, key: Seq<char>) -> bool {
    match c.int_of(key) {
        Some(n) => n > 0,
        None => c.bool_of(key) == Some(true),
    }
}

/// The states of a container: hidden where it is not visible, normal where it
/// has the focus, then fullscreen and maximised.
pub open spec fn container_states(c: Json) -> Seq<WindowState> {
    let a = if c.bool_of("visible"@) == Some(false) {
        seq![WindowState::Hidden]
    } else {
        Seq::empty()
    };
    let b = if c.bool_of("focused"@) == Some(true) {
        a.push(WindowState::Normal)
    } else {
        a
    };
    let d = if switched_on(c, "fullscreen_mode"@) {
        b.push(WindowState::FullScreen)
    } else {
        b
    };
    if switched_on(c, "maximized"@) {
        d.push(WindowState::Maximized)
    } else {
        d
    }
}

/// The application of a container: its own identifier, or the class of its X11
/// window.
pub open spec fn container_app(c: Json) -> Option<Seq<char>> {
    match c.str_of("app_id"@) {
        Some(a) => Some(a),
        None => match c.at("window_properties"@) {
            Some(p) => p.str_of("class"@),
            None => None,
        },
    }
}

/// The workspace of a container: a name, or an object with a name.
pub open spec fn container_workspace(c: Json) -> Option<Seq<char>> {
    match c.at("workspace"@) {
        Some(w) => match w.str() {
            Some(n) => Some(n),
            None => w.str_of("name"@),
        },
        None => None,
    }
}

/// The window in a container. A container without an application and without an
/// X11 window only groups others.
pub open spec fn container_window(c: Json) -> Option<WindowView> {
    if c.at("app_id"@) is None && c.at("window"@) is None {
        None
    } else {
        match c.uint_of("id"@) {
            None => None,
            Some(id) => Some(
                WindowView {
                    id: sway(dec(id as nat)),
                    title: or_empty(c.str_of("name"@)),
                    app_id: or_empty(container_app(c)),
                    pid: low_u32(c.uint_of("pid"@)),
                    geometry: rect_in(c.at("geometry"@)),
                    frame_geometry: rect_in(c.at("rect"@)),
                    states: container_states(c),
                    workspace_id: named(container_workspace(c)),
                    monitor_id: named(c.str_of("output"@)),
                    stacking_order: match c.items_of("focus"@) {
                        Some(a) => a.len() as u32,
                        None => 0,
                    },
                    desktop_file: None,
                    window_type: WindowType::Normal,
                    icon_geometry: None,
                    keep_above: false,
                },
            ),
        }
    }
}

fn is_true(b: Option<bool>) -> (r: bool)
    ensures
        r == (b == Some(true)),
{
    match b {
        Some(x) => x,
        None => false,
    }
}

fn flag_on(c: &Json, key: &str) -> (r: bool)
    ensures
        r == switched_on(*c, key@),
{
    match c.get_i64(key) {
        Some(n) => n > 0,
        None => is_true(c.get_bool(key)),
    }
}

/// The states of a container.
pub fn states_of(c: &Json) -> (r: Vec<WindowState>)
    ensures
        r@ == container_states(*c),
{
    let mut states: Vec<WindowState> = Vec::new();
    let hidden = match c.get_bool("visible") {
        Some(v) => !v,
        None => false,
    };
    if hidden {
        states.push(WindowState::Hidden);
    }
    if is_true(c.get_bool("focused")) {
        states.push(WindowState::Normal);
    }
    if flag_on(c, "fullscreen_mode") {
        states.push(WindowState::FullScreen);
    }
    if flag_on(c, "maximized") {
        states.push(WindowState::Maximized);
    }
    assert(states@ =~= container_states(*c));
    states
}

fn copied(s: Option<&str>) -> (r: Option<String>)
    ensures
        opt_text(r) == (match s {
            Some(t) => Some(t@),
            None => None,
        }),
{
    match s {
        Some(t) => Some(owned(t)),
        None => None,
    }
}

fn app_of(c: &Json) -> (r: String)
    ensures
        r@ == or_empty(container_app(*c)),
{
    if let Some(a) = c.get_str("app_id") {
        return owned(a);
    }
    if let Some(p) = c.get("window_properties") {
        if let Some(k) = p.get_str("class") {
            return owned(k);
        }
    }
    String::new()
}

fn workspace_of(c: &Json) -> (r: Option<WorkspaceId>)
    ensures
        opt_view(r) == named(container_workspace(*c)),
{
    let w = match c.get("workspace") {
        Some(w) => w,
        None => return None,
    };
    let name = match w.as_str() {
        Some(n) => owned(n),
        None => match w.get_str("name") {
            Some(n) => owned(n),
            None => return None,
        },
    };
    Some(WorkspaceId { native_id: name, de_type: DesktopEnvironment::Sway })
}

/// The window in a container.
pub fn parse_window_info(container: &Json) -> (r: Option<WindowInfo>)
    ensures
        opt_view(r) == container_window(*container),
{
    if container.get("app_id").is_none() && container.get("window").is_none() {
        return None;
    }
    let id: u64 = match container.get_u64("id") {
        Some(n) => n,
        None => return None,
    };
    let monitor_id = match container.get_str("output") {
        Some(n) => Some(MonitorId { native_id: owned(n), de_type: DesktopEnvironment::Sway }),
        None => None,
    };
    let stacking_order: u32 = match container.get_array("focus") {
        Some(a) => #[verifier::truncate] (a.len() as u32),
        None => 0,
    };
    let title = match container.get_str("name") {
        Some(n) => owned(n),
        None => String::new(),
    };
    let w = WindowInfo {
        id: WindowId { native_id: dec_of(id), de_type: DesktopEnvironment::Sway },
        title,
        app_id: app_of(container),
        pid: u32_or_zero(container.get_u64("pid")),
        geometry: read_rect(container.get("geometry")),
        frame_geometry: read_rect(container.get("rect")),
        states: states_of(container),
        workspace_id: workspace_of(container),
        monitor_id,
        stacking_order,
        desktop_file: None,
        window_type: WindowType::Normal,
        icon_geometry: None,
        keep_above: false,
    };
    assert(Some(w@) =~= container_window(*container));
    Some(w)
}

// ---------------------------------------------------------------------------
// Known windows
// ---------------------------------------------------------------------------
/// Whether a window keeps a state when the focus moves: no window counts as hidden
/// any more, and only the focused one counts as normal.
pub open spec fn stays(s: WindowState, focused: bool) -> bool {
    s != WindowState::Hidden && (focused || s != WindowState::Normal)
}

/// A window after the focus moved to `focused`.
pub open spec fn after_focus(w: WindowView, focused: IdView) -> WindowView {
    let kept = w.states.filter(|s: WindowState| stays(s, w.id == focused));
    WindowView {
        states: if w.id == focused && !kept.contains(WindowState::Normal) {
            kept.push(WindowState::Normal)
        } else {
            kept
        },
        ..w
    }
}

/// The outer frame of a container; without decoration it is that of its content.
pub open spec fn frame_rect(c: Json) -> Rect {
    match c.at("rect"@) {
        Some(_) => rect_in(c.at("rect"@)),
        None => rect_in(c.at("geometry"@)),
    }
}

/// A window after its container was reported again: its geometry, and its title
/// where the report has one.
pub open spec fn refreshed(w: WindowView, c: Json) -> WindowView {
    WindowView {
        geometry: rect_in(c.at("geometry"@)),
        frame_geometry: frame_rect(c),
        title: match c.str_of("name"@) {
            Some(n) => n,
            None => w.title,
        },
        ..w
    }
}

/// The windows after a container was reported again. A report without an
/// identifier changes nothing.
pub open spec fn all_refreshed(ws: Seq<WindowView>, c: Json) -> Seq<WindowView> {
    match c.uint_of("id"@) {
        None => ws,
        Some(id) => ws.map_values(
            |w: WindowView|
                if w.id.native_id == dec(id as nat) {
                    refreshed(w, c)
                } else {
                    w
                },
        ),
    }
}

fn kept_states(states: &Vec<WindowState>, focused: bool) -> (r: Vec<WindowState>)
    ensures
        r@ == states@.filter(|s: WindowState| stays(s, focused)),
{
    let ghost keep = |s: WindowState| stays(s, focused);
    let mut out: Vec<WindowState> = Vec::new();
    let mut i: usize = 0;
    proof {
        reveal(Seq::filter);
        assert(out@ =~= states@.take(0).filter(keep));
    }
    while i < states.len()
        invariant
            i <= states.len(),
            keep == (|s: WindowState| stays(s, focused)),
            out@ == states@.take(i as int).filter(keep),
        decreases states.len() - i,
    {
        proof {
            reveal(Seq::filter);
            assert(states@.take(i as int + 1).drop_last() =~= states@.take(i as int));
        }
        if states[i] != WindowState::Hidden && (focused || states[i] != WindowState::Normal) {
            out.push(states[i]);
        }
        i = i + 1;
    }
    assert(states@.take(i as int) =~= states@);
    out
}

/// Marks the one window that has the focus.
pub fn set_focused(windows: &mut Vec<WindowInfo>, focused: &WindowId)
    ensures
        views(final(windows)@) == views(old(windows)@).map_values(
            |w: WindowView| after_focus(w, focused@),
        ),
{
    broadcast use lemma_views_push;

    let ghost before = views(windows@);
    let ghost all = before.map_values(|w: WindowView| after_focus(w, focused@));
    let mut out: Vec<WindowInfo> = Vec::new();
    let mut i: usize = 0;
    while i < windows.len()
        invariant
            i <= windows.len(),
            before == views(windows@),
            all == before.map_values(|w: WindowView| after_focus(w, focused@)),
            views(out@) == all.take(i as int),
        decreases windows.len() - i,
    {
        let mut w = windows[i].clone();
        let ghost w0 = w@;
        let has_focus = w.id.same_as(focused);
        let mut states = kept_states(&w.states, has_focus);
        if has_focus && !has_state(&states, WindowState::Normal) {
            states.push(WindowState::Normal);
        }
        w.states = states;
        assert(w@ =~= after_focus(w0, focused@));
        let ghost had = views(out@);
        out.push(w);
        assert(views(out@) == had.push(all[i as int]));
        i = i + 1;
        assert(views(out@) =~= all.take(i as int));
    }
    assert(all.take(i as int) =~= all);
    *windows = out;
}

/// Brings the windows up to date with a container that was reported again.
pub fn refresh_from_container(windows: &mut Vec<WindowInfo>, container: &Json)
    ensures
        views(final(windows)@) == all_refreshed(views(old(windows)@), *container),
{
    broadcast use lemma_views_push;

    let native = match container.get_u64("id") {
        Some(n) => dec_of(n),
        None => return,
    };
    let geo = read_rect(container.get("geometry"));
    let frame = match container.get("rect") {
        Some(rect) => read_rect(Some(rect)),
        None => geo,
    };
    let ghost before = views(windows@);
    let ghost all = all_refreshed(before, *container);
    let mut out: Vec<WindowInfo> = Vec::new();
    let mut i: usize = 0;
    while i < windows.len()
        invariant
            i <= windows.len(),
            before == views(windows@),
            all == all_refreshed(before, *container),
            container.uint_of("id"@) is Some,
            native@ == dec(container.uint_of("id"@)->0 as nat),
            geo == rect_in(container.at("geometry"@)),
            frame == frame_rect(*container),
            views(out@) == all.take(i as int),
        decreases windows.len() - i,
    {
        let mut w = windows[i].clone();
        let ghost w0 = w@;
        if same(w.id.native_id.as_str(), native.as_str()) {
            w.geometry = geo;
            w.frame_geometry = frame;
            if let Some(title) = container.get_str("name") {
                w.title = owned(title);
            }
            assert(w@ =~= refreshed(w0, *container));
        }
        assert(w@ == all[i as int]);
        let ghost had = views(out@);
        out.push(w);
        assert(views(out@) == had.push(all[i as int]));
        i = i + 1;
        assert(views(out@) =~= all.take(i as int));
    }
    assert(all.take(i as int) =~= all);
    *windows = out;
}

fn forget(windows: &mut Vec<WindowInfo>, id: &WindowId)
    ensures
        views(final(windows)@) == without_window(views(old(windows)@), id@),
{
    broadcast use lemma_views_push;

    let ghost before = views(windows@);
    let mut out: Vec<WindowInfo> = Vec::new();
    let mut i: usize = 0;
    proof {
        reveal(Seq::filter);
        assert(views(out@) =~= without_window(before.take(0), id@));
    }
    while i < windows.len()
        invariant
            i <= windows.len(),
            before == views(windows@),
            views(out@) == without_window(before.take(i as int), id@),
        decreases windows.len() - i,
    {
        proof {
            reveal(Seq::filter);
            assert(before.take(i as int + 1).drop_last() =~= before.take(i as int));
            assert(before[i as int] == windows@[i as int]@);
        }
        if !windows[i].id.same_as(id) {
            out.push(windows[i].clone());
        }
        i = i + 1;
    }
    assert(before.take(i as int) =~= before);
    *windows = out;
}

// ---------------------------------------------------------------------------
// Events
// ---------------------------------------------------------------------------
/// The workspace that an event is about: its name in the member `current`, or in
/// the event itself.
pub open spec fn event_workspace(event: Json) -> Option<WorkspaceView> {
    let current = event.at("current"@);
    let name = match current {
        Some(c) => match c.str_of("name"@) {
            Some(n) => Some(n),
            None => event.str_of("name"@),
        },
        None => event.str_of("name"@),
    };
    match name {
        None => None,
        Some(n) => Some(
            WorkspaceView {
                id: sway(n),
                name: n,
                number: match current {
                    Some(c) => low_u32(c.uint_of("num"@)),
                    None => 0,
                },
                is_active: match current {
                    Some(c) => c.bool_of("focused"@) != Some(false),
                    None => true,
                },
                monitor_ids: Seq::empty(),
                window_ids: Seq::empty(),
            },
        ),
    }
}

/// What a workspace event stands for.
pub open spec fn workspace_event(event: Json) -> Option<EventView> {
    match event.str_of("change"@) {
        None => None,
        Some(change) => if change == "init"@ || change == "focus"@ {
            match event_workspace(event) {
                Some(info) => Some(
                    EventView::WorkspaceChanged { info, source: EventSource::Sway },
                ),
                None => None,
            }
        } else if change == "empty"@ {
            Some(
                EventView::WorkspaceListChanged {
                    workspaces: Seq::empty(),
                    source: EventSource::Sway,
                },
            )
        } else {
            None
        },
    }
}

/// What a window event does to the known windows, and what it stands for.
pub open spec fn window_event(ws: Seq<WindowView>, change: Seq<char>, c: Json, id: IdView) -> (
    Seq<WindowView>,
    Option<EventView>,
) {
    let source = EventSource::Sway;
    if change == "new"@ {
        match container_window(c) {
            Some(info) => (ws.push(info), Some(EventView::WindowOpened { info, source })),
            None => (ws, None),
        }
    } else if change == "close"@ {
        (without_window(ws, id), Some(EventView::WindowClosed { id, source }))
    } else if change == "focus"@ {
        let after = ws.map_values(|w: WindowView| after_focus(w, id));
        (
            after,
            match find_window(after, id) {
                Some(info) => Some(EventView::WindowFocused { info, source }),
                None => None,
            },
        )
    } else if change == "move"@ {
        (
            all_refreshed(ws, c),
            Some(EventView::WindowMoved { id, geometry: rect_in(c.at("geometry"@)), source }),
        )
    } else if change == "title"@ {
        (
            all_refreshed(ws, c),
            Some(
                EventView::WindowMetadataChanged {
                    id,
                    title: c.str_of("name"@),
                    app_id: c.str_of("app_id"@),
                    source,
                },
            ),
        )
    } else if change == "floating_node"@ || change == "fullscreen_mode"@ || change == "mark"@ {
        (all_refreshed(ws, c), None)
    } else {
        (ws, None)
    }
}

/// What a message does to the known windows, and the event that it stands for.
/// The type of the message decides, not its content.
pub open spec fn on_frame(ws: Seq<WindowView>, kind: u32, event: Json) -> (
    Seq<WindowView>,
    Option<EventView>,
) {
    if kind == EVENT_WORKSPACE {
        (ws, workspace_event(event))
    } else if kind == EVENT_WINDOW {
        match (event.at("container"@), event.str_of("change"@)) {
            (Some(c), Some(change)) => match c.uint_of("id"@) {
                Some(n) => window_event(ws, change, c, sway(dec(n as nat))),
                None => (ws, None),
            },
            _ => (ws, None),
        }
    } else {
        (ws, None)
    }
}

/// The workspace that an event is about.
pub fn parse_workspace_info(event: &Json) -> (r: Option<WorkspaceInfo>)
    ensures
        opt_view(r) == event_workspace(*event),
{
    let current = event.get("current");
    let inner = match current {
        Some(c) => copied(c.get_str("name")),
        None => None,
    };
    let name = match inner {
        Some(n) => n,
        None => match event.get_str("name") {
            Some(n) => owned(n),
            None => return None,
        },
    };
    let number: u32 = match current {
        Some(c) => u32_or_zero(c.get_u64("num")),
        None => 0,
    };
    let is_active = match current {
        Some(c) => match c.get_bool("focused") {
            Some(f) => f,
            None => true,
        },
        None => true,
    };
    let w = WorkspaceInfo {
        id: WorkspaceId { native_id: name.clone(), de_type: DesktopEnvironment::Sway },
        name,
        number,
        is_active,
        monitor_ids: Vec::new(),
        window_ids: Vec::new(),
    };
    assert(Some(w@) =~= event_workspace(*event));
    Some(w)
}

fn handle_workspace_event(event: &Json) -> (r: Option<DesktopEvent>)
    ensures
        opt_view(r) == workspace_event(*event),
{
    let change = match event.get_str("change") {
        Some(c) => c,
        None => return None,
    };
    if same(change, "init") || same(change, "focus") {
        return match parse_workspace_info(event) {
            Some(info) => Some(
                DesktopEvent::WorkspaceChanged { info, source: EventSource::Sway },
            ),
            None => None,
        };
    }
    if same(change, "empty") {
        let workspaces: Vec<WorkspaceInfo> = Vec::new();
        assert(views(workspaces@) =~= Seq::<WorkspaceView>::empty());
        return Some(
            DesktopEvent::WorkspaceListChanged { workspaces, source: EventSource::Sway },
        );
    }
    None
}

/// Takes in a window event.
pub fn handle_window_event(
    change: &str,
    container: &Json,
    id: WindowId,
    windows: &mut Vec<WindowInfo>,
) -> (r: Option<DesktopEvent>)
    ensures
        ({
            let next = window_event(views(old(windows)@), change@, *container, id@);
            &&& views(final(windows)@) == next.0
            &&& opt_view(r) == next.1
        }),
{
    broadcast use lemma_views_push;

    let source = EventSource::Sway;
    if same(change, "new") {
        return match parse_window_info(container) {
            Some(info) => {
                windows.push(info.clone());
                Some(DesktopEvent::WindowOpened { info, source })
            },
            None => None,
        };
    }
    if same(change, "close") {
        forget(windows, &id);
        return Some(DesktopEvent::WindowClosed { id, source });
    }
    if same(change, "focus") {
        set_focused(windows, &id);
        return match pick_window(windows, &id) {
            Some(info) => Some(DesktopEvent::WindowFocused { info, source }),
            None => None,
        };
    }
    if same(change, "move") {
        refresh_from_container(windows, container);
        let geometry = read_rect(container.get("geometry"));
        return Some(DesktopEvent::WindowMoved { id, geometry, source });
    }
    if same(change, "title") {
        refresh_from_container(windows, container);
        return Some(
            DesktopEvent::WindowMetadataChanged {
                id,
                title: copied(container.get_str("name")),
                app_id: copied(container.get_str("app_id")),
                source,
            },
        );
    }
    if same(change, "floating_node") || same(change, "fullscreen_mode") || same(change, "mark") {
        refresh_from_container(windows, container);
    }
    None
}

/// Takes in a message of the event stream: brings the known windows up to date
/// and returns the event that the message stands for.
pub fn pump_frame(reply_type: u32, event: &Json, windows: &mut Vec<WindowInfo>) -> (r: Option<
    DesktopEvent,
>)
    ensures
        ({
            let next = on_frame(views(old(windows)@), reply_type, *event);
            &&& views(final(windows)@) == next.0
            &&& opt_view(r) == next.1
        }),
{
    if reply_type & EVENT_MASK == 0 {
        proof {
            assert(reply_type & 0x8000_0000 == 0 ==> reply_type != 0x8000_0000 && reply_type
                != 0x8000_0003) by (bit_vector);
        }
        return None;
    }
    if reply_type == EVENT_WORKSPACE {
        return handle_workspace_event(event);
    }
    if reply_type != EVENT_WINDOW {
        return None;
    }
    let container = match event.get("container") {
        Some(c) => c,
        None => return None,
    };
    let change = match event.get_str("change") {
        Some(c) => c,
        None => return None,
    };
    let id = match container.get_u64("id") {
        Some(n) => WindowId { native_id: dec_of(n), de_type: DesktopEnvironment::Sway },
        None => return None,
    };
    handle_window_event(change, container, id, windows)
}

/// Messages that are no events leave everything as it was.
pub proof fn law_answers_are_no_events(ws: Seq<WindowView>, kind: u32, event: Json)
    requires
        kind & EVENT_MASK == 0,
    ensures
        on_frame(ws, kind, event) == (ws, None::<EventView>),
{
    assert(kind & 0x8000_0000 == 0 ==> kind != 0x8000_0000 && kind != 0x8000_0003)
        by (bit_vector);
}

/// A window that was closed is not known any more.
pub proof fn law_closed_window_is_forgotten(ws: Seq<WindowView>, c: Json, id: IdView)
    ensures
        find_window(window_event(ws, "close"@, c, id).0, id) is None,
{
    reveal_strlit("close");
    reveal_strlit("new");
    assert("close"@.len() != "new"@.len());
    crate::hyprland::cache::law_removed_window_is_gone(ws, id, id);
}

/// After the focus moved, a window counts as normal if and only if it has the
/// focus.
pub proof fn law_one_window_has_the_focus(ws: Seq<WindowView>, c: Json, id: IdView, i: int)
    requires
        0 <= i < ws.len(),
    ensures
        window_event(ws, "focus"@, c, id).0.len() == ws.len(),
        window_event(ws, "focus"@, c, id).0[i].id == ws[i].id,
        window_event(ws, "focus"@, c, id).0[i].states.contains(WindowState::Normal) <==> ws[i].id
            == id,
{
    reveal_strlit("new");
    reveal_strlit("close");
    reveal_strlit("focus");
    assert("focus"@.len() != "new"@.len());
    assert("focus"@[0] != "close"@[0]);
    let keep = |s: WindowState| stays(s, ws[i].id == id);
    let kept = ws[i].states.filter(keep);
    let after = after_focus(ws[i], id);
    assert(window_event(ws, "focus"@, c, id).0[i] == after);
    if ws[i].id == id {
        if !kept.contains(WindowState::Normal) {
            assert(after.states[kept.len() as int] == WindowState::Normal);
        }
    } else if kept.contains(WindowState::Normal) {
        let k = choose|k: int| 0 <= k < kept.len() && kept[k] == WindowState::Normal;
        assert(keep(kept[k])) by {
            broadcast use vstd::seq_lib::group_filter_ensures;

        }
    }
}

} // verus!
