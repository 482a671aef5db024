//! The Hyprland compositor component: what it reports, and how answers of the
//! control socket become windows, workspaces and monitors.

use vstd::prelude::*;
use vstd::string::*;

use crate::hyprland::cache::{
    deduplicated, strip_0x, without_0x, without_duplicates, WindowCache,
};
use crate::hyprland::hyprctl::{answer_value, read_json, Hyprctl};
use crate::hyprland::wayland::HyprlandBindings;
use crate::json::{
    i32_or_zero, low_i32, low_u32, or_blank, or_empty, u32_or_zero, Json,
};
use crate::text::{
    cat, cat3, dec, dec_of, join, joined, lemma_texts_push, owned, read_i32, read_signed, texts,
};
use crate::types::{
    lemma_views_push, opt_view, res_views, views, AgentShellError, BackendCapabilities,
    ComponentHealth, DesktopEnvironment, ErrorView, HealthView, IdView, MonitorId, MonitorInfo,
    MonitorView, Rect, WindowId, WindowInfo, WindowState, WindowType, WindowView, WorkspaceId,
    WorkspaceInfo, WorkspaceView,
};

verus! {

/// What is bound of the standard protocols.
#[derive(Clone, Copy, Debug)]
pub struct WlrReport {
    pub bound: u32,
    pub foreign_toplevel: bool,
    pub virtual_pointer: bool,
}

/// An identity of Hyprland.
pub open spec fn hypr(id: Seq<char>) -> IdView {
    IdView { native_id: id, de_type: DesktopEnvironment::Hyprland }
}

/// The identity with a number, if there is one.
pub open spec fn numbered(n: Option<u64>) -> Option<IdView> {
    match n {
        Some(k) => Some(hypr(dec(k as nat))),
        None => None,
    }
}

// ---------------------------------------------------------------------------
// Windows
// ---------------------------------------------------------------------------
/// The number at a position of an array member, cut down to 32 bits, or zero.
pub open spec fn number_in(c: Json, field: Seq<char>, idx: int) -> i32 {
    match c.items_of(field) {
        Some(a) => if idx < a.len() {
            low_i32(a[idx].integer())
        } else {
            0
        },
        None => 0,
    }
}

/// The position and size of a client.
pub open spec fn client_rect(c: Json) -> Rect {
    Rect {
        x: number_in(c, "at"@, 0),
        y: number_in(c, "at"@, 1),
        width: number_in(c, "size"@, 0),
        height: number_in(c, "size"@, 1),
    }
}

/// The states of a client: fullscreen from mode 2 on (mode 1 is maximised), and
/// hidden where it is not mapped.
pub open spec fn client_states(c: Json) -> Seq<WindowState> {
    let full = match c.int_of("fullscreen"@) {
        Some(n) => n >= 2,
        None => false,
    };
    let a = if full {
        seq![WindowState::FullScreen]
    } else {
        Seq::empty()
    };
    if c.bool_of("mapped"@) == Some(false) {
        a.push(WindowState::Hidden)
    } else {
        a
    }
}

/// The number in the member `id` of a member.
pub open spec fn id_in(c: Json, field: Seq<char>) -> Option<u64> {
    match c.at(field) {
        Some(w) => w.uint_of("id"@),
        None => None,
    }
}

/// The window that a client entry describes.
pub open spec fn client(c: Json, order: u32) -> WindowView {
    WindowView {
        id: hypr(without_0x(or_empty(c.str_of("address"@)))),
        title: or_empty(c.str_of("title"@)),
        app_id: or_empty(c.str_of("class"@)),
        pid: low_u32(c.uint_of("pid"@)),
        geometry: client_rect(c),
        frame_geometry: client_rect(c),
        states: client_states(c),
        workspace_id: numbered(id_in(c, "workspace"@)),
        monitor_id: numbered(c.uint_of("monitor"@)),
        stacking_order: order,
        desktop_file: c.str_of("initialClass"@),
        window_type: WindowType::Normal,
        icon_geometry: None,
        keep_above: c.bool_of("pinned"@) == Some(true),
    }
}

/// The items of an array; anything else has none.
pub open spec fn entries(v: Json) -> Seq<Json> {
    match v.items() {
        Some(a) => a,
        None => Seq::empty(),
    }
}

/// The windows that a list of clients describes, in its order.
pub open spec fn clients(v: Json) -> Seq<WindowView> {
    Seq::new(entries(v).len(), |i: int| client(entries(v)[i], i as u32))
}

fn item_number(c: &Json, field: &str, idx: usize) -> (r: i32)
    ensures
        r == number_in(*c, field@, idx as int),
{
    match c.get_array(field) {
        Some(a) => if idx < a.len() {
            i32_or_zero(a[idx].as_i64())
        } else {
            0
        },
        None => 0,
    }
}

fn number_id(n: Option<u64>) -> (r: Option<WorkspaceId>)
    ensures
        opt_view(r) == numbered(n),
{
    match n {
        Some(k) => Some(
            WorkspaceId { native_id: dec_of(k), de_type: DesktopEnvironment::Hyprland },
        ),
        None => None,
    }
}

fn monitor_number_id(n: Option<u64>) -> (r: Option<MonitorId>)
    ensures
        opt_view(r) == numbered(n),
{
    match n {
        Some(k) => Some(MonitorId { native_id: dec_of(k), de_type: DesktopEnvironment::Hyprland }),
        None => None,
    }
}

fn inner_id(c: &Json, field: &str) -> (r: Option<u64>)
    ensures
        r == id_in(*c, field@),
{
    match c.get(field) {
        Some(w) => w.get_u64("id"),
        None => None,
    }
}

/// The window that a client entry describes.
fn parse_client(c: &Json, order: u32) -> (r: WindowInfo)
    ensures
        r@ == client(*c, order),
{
    let address = or_blank(c.get_str("address"));
    let geo = Rect {
        x: item_number(c, "at", 0),
        y: item_number(c, "at", 1),
        width: item_number(c, "size", 0),
        height: item_number(c, "size", 1),
    };
    let mut states: Vec<WindowState> = Vec::new();
    let full = match c.get_i64("fullscreen") {
        Some(n) => n >= 2,
        None => false,
    };
    if full {
        states.push(WindowState::FullScreen);
    }
    let hidden = match c.get_bool("mapped") {
        Some(m) => !m,
        None => false,
    };
    if hidden {
        states.push(WindowState::Hidden);
    }
    let desktop_file = match c.get_str("initialClass") {
        Some(s) => Some(owned(s)),
        None => None,
    };
    let keep_above = match c.get_bool("pinned") {
        Some(p) => p,
        None => false,
    };
    let w = WindowInfo {
        id: WindowId {
            native_id: strip_0x(address.as_str()),
            de_type: DesktopEnvironment::Hyprland,
        },
        title: or_blank(c.get_str("title")),
        app_id: or_blank(c.get_str("class")),
        pid: u32_or_zero(c.get_u64("pid")),
        geometry: geo,
        frame_geometry: geo,
        states,
        workspace_id: number_id(inner_id(c, "workspace")),
        monitor_id: monitor_number_id(c.get_u64("monitor")),
        stacking_order: order,
        desktop_file,
        window_type: WindowType::Normal,
        icon_geometry: None,
        keep_above,
    };
    assert(w@.states =~= client_states(*c));
    assert(w@ =~= client(*c, order));
    w
}

/// The windows that a list of clients describes.
pub fn parse_clients(v: &Json) -> (r: Vec<WindowInfo>)
    ensures
        views(r@) == clients(*v),
{
    broadcast use lemma_views_push;

    let mut out: Vec<WindowInfo> = Vec::new();
    let ghost all = clients(*v);
    let items = match v.as_array() {
        Some(a) => a,
        None => {
            assert(views(out@) =~= all);
            return out;
        },
    };
    let mut i: usize = 0;
    while i < items.len()
        invariant
            i <= items.len(),
            all == clients(*v),
            entries(*v) == items@,
            views(out@) == all.take(i as int),
        decreases items.len() - i,
    {
        let order: u32 = #[verifier::truncate] (i as u32);
        assert(order == (i as int) as u32);
        let ghost had = views(out@);
        out.push(parse_client(&items[i], order));
        assert(views(out@) == had.push(all[i as int]));
        i = i + 1;
        assert(views(out@) =~= all.take(i as int));
    }
    assert(all.take(i as int) =~= all);
    out
}

/// The windows behind the answer to a request for all windows, each identity once.
pub open spec fn client_list(text: Seq<char>) -> Result<Seq<WindowView>, ErrorView> {
    match answer_value(text) {
        Ok(v) => Ok(deduplicated(clients(v))),
        Err(e) => Err(e),
    }
}

/// The Hyprland component. What it learns over its sockets is handed to it.
#[derive(Debug)]
pub struct HyprlandCompositor {}

impl HyprlandCompositor {
    /// Takes in the answer to a request for all windows, and returns what the cache
    /// holds afterwards: the windows of the answer, each identity once. An answer
    /// that cannot be read changes nothing.
    pub fn refresh_cache_from_clients(cache: &mut WindowCache, answer: &str) -> (r: Result<
        Vec<WindowInfo>,
        AgentShellError,
    >)
        ensures
            res_views(r) == client_list(answer@),
            match client_list(answer@) {
                Ok(ws) => final(cache)@ == ws,
                Err(_) => *final(cache) == *old(cache),
            },
    {
        match read_json(answer) {
            Ok(v) => {
                let windows = parse_clients(&v);
                cache.replace_all(without_duplicates(&windows));
                Ok(cache.snapshot())
            },
            Err(e) => Err(e),
        }
    }

    /// The windows to report: those of a fresh answer, or else the known ones, or
    /// else the error.
    pub fn list_windows(fresh: Result<Vec<WindowInfo>, AgentShellError>, cache: &WindowCache) -> (r:
        Result<Vec<WindowInfo>, AgentShellError>)
        ensures
            match fresh {
                Ok(_) => r == fresh,
                Err(_) => if cache@.len() == 0 {
                    r == fresh
                } else {
                    r matches Ok(ws) && views(ws@) == cache@
                },
            },
    {
        match fresh {
            Ok(ws) => Ok(ws),
            Err(e) => if cache.is_empty() {
                Err(e)
            } else {
                Ok(cache.snapshot())
            },
        }
    }

    /// The active window behind the answer to a request for it: an object describes
    /// one, anything else means that there is none.
    pub fn get_active_window(v: Json) -> (r: Option<WindowInfo>)
        ensures
            opt_view(r) == (if v is Obj {
                Some(client(v, 0))
            } else {
                None
            }),
    {
        match v {
            Json::Obj(_) => Some(parse_client(&v, 0)),
            _ => None,
        }
    }
}

// ---------------------------------------------------------------------------
// Workspaces and monitors
// ---------------------------------------------------------------------------
/// The number of a workspace entry, or zero.
pub open spec fn workspace_number(w: Json) -> u64 {
    match w.uint_of("id"@) {
        Some(n) => n,
        None => 0,
    }
}

/// The workspace that an entry describes, given the number of the active one.
pub open spec fn workspace_entry(w: Json, active: Option<u64>) -> WorkspaceView {
    WorkspaceView {
        id: hypr(dec(workspace_number(w) as nat)),
        name: or_empty(w.str_of("name"@)),
        number: workspace_number(w) as u32,
        is_active: active == Some(workspace_number(w)),
        monitor_ids: match w.uint_of("monitorID"@) {
            Some(m) => seq![hypr(dec(m as nat))],
            None => Seq::empty(),
        },
        window_ids: Seq::empty(),
    }
}

/// The monitor that an entry describes. There is no primary monitor; the focused
/// one comes closest.
pub open spec fn monitor_entry(m: Json) -> MonitorView {
    let rect = Rect {
        x: low_i32(m.int_of("x"@)),
        y: low_i32(m.int_of("y"@)),
        width: low_i32(m.int_of("width"@)),
        height: low_i32(m.int_of("height"@)),
    };
    MonitorView {
        id: hypr(
            dec(
                match m.uint_of("id"@) {
                    Some(n) => n as nat,
                    None => 0,
                },
            ),
        ),
        name: or_empty(m.str_of("name"@)),
        geometry: rect,
        physical_geometry: rect,
        scale: m.number_of("scale"@),
        is_primary: m.bool_of("focused"@) == Some(true),
        workspace_id: numbered(id_in(m, "activeWorkspace"@)),
    }
}

impl HyprlandCompositor {
    /// The workspaces that a list describes. `active` is the answer to a request for
    /// the active workspace, if there was one.
    pub fn list_workspaces(v: &Json, active: Option<&Json>) -> (r: Vec<WorkspaceInfo>)
        ensures
            views(r@) == entries(*v).map_values(
                |w: Json|
                    workspace_entry(
                        w,
                        match active {
                            Some(a) => a.uint_of("id"@),
                            None => None,
                        },
                    ),
            ),
    {
        broadcast use lemma_views_push;

        let active_id = match active {
            Some(a) => a.get_u64("id"),
            None => None,
        };
        let mut out: Vec<WorkspaceInfo> = Vec::new();
        let ghost all = entries(*v).map_values(|w: Json| workspace_entry(w, active_id));
        let items = match v.as_array() {
            Some(a) => a,
            None => {
                assert(views(out@) =~= all);
                return out;
            },
        };
        let mut i: usize = 0;
        while i < items.len()
            invariant
                i <= items.len(),
                entries(*v) == items@,
                all == entries(*v).map_values(|w: Json| workspace_entry(w, active_id)),
                views(out@) == all.take(i as int),
            decreases items.len() - i,
        {
            let w = &items[i];
            let ws_id: u64 = match w.get_u64("id") {
                Some(n) => n,
                None => 0,
            };
            let mut monitor_ids: Vec<MonitorId> = Vec::new();
            if let Some(m) = w.get_u64("monitorID") {
                monitor_ids.push(
                    MonitorId { native_id: dec_of(m), de_type: DesktopEnvironment::Hyprland },
                );
            }
            let is_active = match active_id {
                Some(a) => a == ws_id,
                None => false,
            };
            let info = WorkspaceInfo {
                id: WorkspaceId { native_id: dec_of(ws_id), de_type: DesktopEnvironment::Hyprland },
                name: or_blank(w.get_str("name")),
                number: #[verifier::truncate] (ws_id as u32),
                is_active,
                monitor_ids,
                window_ids: Vec::new(),
            };
            assert(info@ =~= workspace_entry(*w, active_id));
            let ghost had = views(out@);
            out.push(info);
            assert(views(out@) == had.push(all[i as int]));
            i = i + 1;
            assert(views(out@) =~= all.take(i as int));
        }
        assert(all.take(i as int) =~= all);
        out
    }

    /// The monitors that a list describes.
    pub fn list_monitors(v: &Json) -> (r: Vec<MonitorInfo>)
        ensures
            views(r@) == entries(*v).map_values(|m: Json| monitor_entry(m)),
    {
        broadcast use lemma_views_push;

        let mut out: Vec<MonitorInfo> = Vec::new();
        let ghost all = entries(*v).map_values(|m: Json| monitor_entry(m));
        let items = match v.as_array() {
            Some(a) => a,
            None => {
                assert(views(out@) =~= all);
                return out;
            },
        };
        let mut i: usize = 0;
        while i < items.len()
            invariant
                i <= items.len(),
                entries(*v) == items@,
                all == entries(*v).map_values(|m: Json| monitor_entry(m)),
                views(out@) == all.take(i as int),
            decreases items.len() - i,
        {
            let m = &items[i];
            let rect = Rect {
                x: i32_or_zero(m.get_i64("x")),
                y: i32_or_zero(m.get_i64("y")),
                width: i32_or_zero(m.get_i64("width")),
                height: i32_or_zero(m.get_i64("height")),
            };
            let id: u64 = match m.get_u64("id") {
                Some(n) => n,
                None => 0,
            };
            let is_primary = match m.get_bool("focused") {
                Some(f) => f,
                None => false,
            };
            let info = MonitorInfo {
                id: MonitorId { native_id: dec_of(id), de_type: DesktopEnvironment::Hyprland },
                name: or_blank(m.get_str("name")),
                geometry: rect,
                physical_geometry: rect,
                scale: m.get_number("scale"),
                is_primary,
                workspace_id: number_id(inner_id(m, "activeWorkspace")),
            };
            assert(info@ =~= monitor_entry(*m));
            let ghost had = views(out@);
            out.push(info);
            assert(views(out@) == had.push(all[i as int]));
            i = i + 1;
            assert(views(out@) =~= all.take(i as int));
        }
        assert(all.take(i as int) =~= all);
        out
    }
}

/// The number of the workspace to switch to; an identifier that is no number
/// stands for the first one.
pub fn workspace_to_activate(id: &WorkspaceId) -> (r: i32)
    ensures
        r == (match read_signed(id.native_id@, 0x8000_0000) {
            Some(n) => n as i32,
            None => 1,
        }),
{
    match read_i32(id.native_id.as_str()) {
        Some(n) => n,
        None => 1,
    }
}

// ---------------------------------------------------------------------------
// Reports
// ---------------------------------------------------------------------------
/// What Hyprland cannot do with a window.
#[derive(Clone, Copy, Debug, PartialEq, Eq, Structural)]
pub enum Unsupported {
    Minimize,
    Unminimize,
}

/// The error for an operation that Hyprland does not have.
pub fn unsupported(op: Unsupported) -> (r: AgentShellError)
    ensures
        r@ == ErrorView::NotImplemented(
            match op {
                Unsupported::Minimize =>
                    "Hyprland has no minimize concept; use workspace switching"@,
                Unsupported::Unminimize => "unminimize lands with T3b aggregation"@,
            },
        ),
{
    match op {
        Unsupported::Minimize => AgentShellError::NotImplemented(
            owned("Hyprland has no minimize concept; use workspace switching"),
        ),
        Unsupported::Unminimize => AgentShellError::NotImplemented(
            owned("unminimize lands with T3b aggregation"),
        ),
    }
}

/// How many private protocols are bound.
pub open spec fn private_bound(b: Option<HyprlandBindings>) -> nat {
    match b {
        Some(p) => p.bound(),
        None => 0,
    }
}

/// The protocols worth naming.
pub open spec fn protocol_names(wlr: WlrReport, b: Option<HyprlandBindings>) -> Seq<Seq<char>> {
    let x = if wlr.foreign_toplevel {
        seq!["foreign-toplevel v3"@]
    } else {
        Seq::empty()
    };
    let y = if wlr.virtual_pointer {
        x.push("virtual-pointer v2"@)
    } else {
        x
    };
    if b is Some && b->0.toplevel_export {
        y.push("hyprland-export v2"@)
    } else {
        y
    }
}

/// The line on the session.
pub open spec fn session_line(signature: Seq<char>) -> Seq<char> {
    "✓ Hyprland 会话  : HYPRLAND_INSTANCE_SIGNATURE="@ + signature
}

/// The line on the protocols.
pub open spec fn protocols_line(wlr: WlrReport, b: Option<HyprlandBindings>) -> Seq<char> {
    let total = wlr.bound + private_bound(b);
    let names = protocol_names(wlr, b);
    (if total > 0 {
        "✓"@
    } else {
        "⚠"@
    }) + " Wayland 协议   : "@ + dec(total as nat) + "/11 globals bound ("@ + (if names.len() == 0 {
        "none"@
    } else {
        join(names, ", "@)
    }) + ")"@
}

fn bound_of(b: &Option<HyprlandBindings>) -> (r: usize)
    ensures
        r == private_bound(*b),
        r <= 4,
{
    match b {
        Some(p) => p.bound_count(),
        None => 0,
    }
}

impl HyprlandCompositor {
    /// The lines of the diagnostic report that need no request.
    pub fn doctor_lines(ctl: &Hyprctl, wlr: WlrReport, bindings: &Option<HyprlandBindings>) -> (r: Vec<
        String,
    >)
        ensures
            texts(r@) == seq![session_line(ctl.signature()), protocols_line(wlr, *bindings)],
    {
        broadcast use lemma_texts_push;

        let mut lines: Vec<String> = Vec::new();
        lines.push(
            cat("✓ Hyprland 会话  : HYPRLAND_INSTANCE_SIGNATURE=", ctl.instance_signature()),
        );
        let private = bound_of(bindings);
        let total: u64 = wlr.bound as u64 + private as u64;
        let mut names: Vec<String> = Vec::new();
        if wlr.foreign_toplevel {
            names.push(owned("foreign-toplevel v3"));
        }
        if wlr.virtual_pointer {
            names.push(owned("virtual-pointer v2"));
        }
        if let Some(b) = bindings {
            if b.toplevel_export {
                names.push(owned("hyprland-export v2"));
            }
        }
        assert(texts(names@) =~= protocol_names(wlr, *bindings));
        let detail = if names.len() == 0 {
            owned("none")
        } else {
            joined(&names, ", ")
        };
        let n = dec_of(total);
        let sign = if total > 0 {
            "✓"
        } else {
            "⚠"
        };
        let mut line = cat3(sign, " Wayland 协议   : ", n.as_str());
        line.append("/11 globals bound (");
        line.append(detail.as_str());
        line.append(")");
        lines.push(line);
        assert(texts(lines@) =~= seq![
            session_line(ctl.signature()),
            protocols_line(wlr, *bindings),
        ]);
        lines
    }
}

/// What a round of requests found out: the time of one request as text, and the
/// number of windows, if they could be listed, of monitors and of workspaces.
pub struct SocketReport {
    pub millis: String,
    pub windows: Option<u64>,
    pub monitors: u64,
    pub workspaces: u64,
}

/// The line on the control socket.
pub open spec fn socket_line(report: Result<SocketReport, String>) -> Seq<char> {
    match report {
        Ok(s) => "✓ hyprctl socket : OK (<"@ + s.millis@ + "ms, "@ + (match s.windows {
            Some(n) => dec(n as nat),
            None => "?"@,
        }) + " windows, "@ + dec(s.monitors as nat) + " monitors, "@ + dec(s.workspaces as nat)
            + " workspaces)"@,
        Err(e) => "⚠ hyprctl socket : "@ + e@,
    }
}

/// The line on the event stream.
pub open spec fn stream_line(running: bool) -> Seq<char> {
    if running {
        "✓ 事件流        : connected (openwindow, closewindow, activewindow, workspacev2)"@
    } else {
        "⚠ 事件流        : not started (lazy; daemon 事件归一化管线未装配，subscribe 未接线)"@
    }
}

impl HyprlandCompositor {
    /// The lines of the diagnostic report that rest on requests.
    pub fn doctor_lines_async(report: &Result<SocketReport, String>, running: bool) -> (r: Vec<String>)
        ensures
            texts(r@) == seq![socket_line(*report), stream_line(running)],
    {
        broadcast use lemma_texts_push;

        let mut lines: Vec<String> = Vec::new();
        match report {
            Ok(s) => {
                let n = match s.windows {
                    Some(n) => dec_of(n),
                    None => owned("?"),
                };
                let m = dec_of(s.monitors);
                let w = dec_of(s.workspaces);
                let mut line = cat3("✓ hyprctl socket : OK (<", s.millis.as_str(), "ms, ");
                line.append(n.as_str());
                line.append(" windows, ");
                line.append(m.as_str());
                line.append(" monitors, ");
                line.append(w.as_str());
                line.append(" workspaces)");
                lines.push(line);
            },
            Err(e) => {
                lines.push(cat("⚠ hyprctl socket : ", e.as_str()));
            },
        }
        lines.push(
            if running {
                owned(
                    "✓ 事件流        : connected (openwindow, closewindow, activewindow, workspacev2)",
                )
            } else {
                owned(
                    "⚠ 事件流        : not started (lazy; daemon 事件归一化管线未装配，subscribe 未接线)",
                )
            },
        );
        assert(texts(lines@) =~= seq![socket_line(*report), stream_line(running)]);
        lines
    }
}

/// How many entries an answer lists.
pub fn entry_count(v: &Json) -> (r: usize)
    ensures
        r == entries(*v).len(),
{
    match v.as_array() {
        Some(a) => a.len(),
        None => 0,
    }
}

impl HyprlandCompositor {
    /// How well the component works, by what could be bound.
    pub fn health(wlr_bound: u32, bindings: &Option<HyprlandBindings>) -> (r: ComponentHealth)
        ensures
            r@ == (if private_bound(*bindings) > 0 {
                if wlr_bound > 0 {
                    HealthView::Healthy
                } else {
                    HealthView::Degraded("wlr protocols partial; hyprland private OK"@)
                }
            } else if wlr_bound == 0 {
                HealthView::Degraded("no wayland protocols; full portal fallback"@)
            } else {
                HealthView::Degraded("private protocols unbound; hyprctl fallback"@)
            }),
    {
        let private = bound_of(bindings);
        if private > 0 {
            if wlr_bound > 0 {
                ComponentHealth::Healthy
            } else {
                ComponentHealth::Degraded(owned("wlr protocols partial; hyprland private OK"))
            }
        } else if wlr_bound == 0 {
            ComponentHealth::Degraded(owned("no wayland protocols; full portal fallback"))
        } else {
            ComponentHealth::Degraded(owned("private protocols unbound; hyprctl fallback"))
        }
    }

    /// What the component can do.
    pub fn capabilities(wlr: WlrReport) -> (r: BackendCapabilities)
        ensures
            r == (BackendCapabilities {
                window_management: true,
                workspace_management: true,
                monitor_layout: true,
                window_events: false,
                workspace_events: false,
                native_input: wlr.virtual_pointer,
                native_capture: true,
                virtual_desktops: true,
                effects_control: false,
            }),
    {
        BackendCapabilities {
            window_management: true,
            workspace_management: true,
            monitor_layout: true,
            window_events: false,
            workspace_events: false,
            native_input: wlr.virtual_pointer,
            native_capture: true,
            virtual_desktops: true,
            effects_control: false,
        }
    }
}

} // verus!
