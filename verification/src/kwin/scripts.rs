//! The scripts that KWin runs on our behalf.
//!
//! A script is a template in which `%KEY%` stands for an argument. Text
//! arguments become string literals that nothing inside the argument can end,
//! numbers are written as they are. Every one-shot script ends by sending
//! `{ req, result }` to the response service; the resident event script sends
//! bare events without a `req` member.

use vstd::prelude::*;
use vstd::string::*;

use crate::json::{print, printed, Json};
use crate::kwin::error::{KWinError, KWinErrorView};
use crate::text::{
    cat, cat3, chars_of, contains, has_text, occurs_at, owned, replace, replaced, split,
    split_at_char, texts,
};

verus! {

/// Bus name of the response service.
pub const RESPONSE_SERVICE: &'static str = "com.agent_shell.Response";

/// Object path of the response service.
pub const RESPONSE_PATH: &'static str = "/com/agent_shell/response";

/// Interface of the response service.
pub const RESPONSE_IFACE: &'static str = "com.agent_shell.Response";

/// Method that a script calls to send its result.
pub const RESPONSE_METHOD: &'static str = "sendResult";

/// Stands in a rendered script where the identifier of the request goes.
pub const REQ_ID_TOKEN: &'static str = "__AGENT_SHELL_REQ_ID__";

/// Result of an action that succeeded.
pub const SUCCESS: &'static str = "{ success: true }";

/// Result of an action on a window that does not exist.
pub const NO_WINDOW: &'static str = "{ success: false, error: \"Window not found\" }";

/// Result of an action on a workspace that does not exist.
pub const NO_WORKSPACE: &'static str = "{ success: false, error: \"Workspace not found\" }";

/// Result of an action on a window and a workspace, one of which does not exist.
pub const NO_WINDOW_OR_WORKSPACE: &'static str =
    "{ success: false, error: \"Window or workspace not found\" }";

/// The identifier of the window `w`.
pub const WINDOW_ID: &'static str =
    "(w.internalId !== undefined ? w.internalId.toString() : String(w.id))";

/// The geometry of the window `w` on version 6.
pub const GEOMETRY_V6: &'static str = "(w.frameGeometry || w.geometry)";

/// The geometry of the window `w` on version 5.
pub const GEOMETRY_V5: &'static str = "w.geometry";

/// The desktop of the window `w` on version 6.
pub const DESKTOP_V6: &'static str = "(w.desktops && w.desktops.length ? w.desktops[0].id : -1)";

/// The desktop of the window `w` on version 5.
pub const DESKTOP_V5: &'static str = "(typeof w.desktop === \"number\" ? w.desktop : -1)";

/// List of windows, up to the geometry expression.
pub const LIST_WINDOWS_HEAD: &'static str = "var windows = workspace.windowList();\n\
    var result = [];\n\
    for (var i = 0; i < windows.length; i++) {\n\
    \x20   var w = windows[i];\n\
    \x20   var g = ";

/// List of windows, from the geometry to the window id.
pub const LIST_WINDOWS_ID: &'static str = ";\n\
    \x20   result.push({\n\
    \x20       id: ";

/// List of windows, from the window id to the desktop id.
pub const LIST_WINDOWS_FIELDS: &'static str = ",\n\
    \x20       title: w.caption,\n\
    \x20       appId: w.resourceClass || w.resourceName || \"\",\n\
    \x20       pid: w.pid,\n\
    \x20       geometry: { x: g.x, y: g.y, width: g.width, height: g.height },\n\
    \x20       frameGeometry: { x: g.x, y: g.y, width: g.width, height: g.height },\n\
    \x20       minimized: w.minimized === true,\n\
    \x20       maximized: (w.maximizeMode === 3),\n\
    \x20       fullscreen: w.fullScreen === true,\n\
    \x20       keepAbove: w.keepAbove === true,\n\
    \x20       desktop: ";

/// List of windows, behind the desktop id.
pub const LIST_WINDOWS_TAIL: &'static str = ",\n\
    \x20       stackingOrder: i,\n\
    \x20       windowType: w.windowType,\n\
    \x20       desktopFile: w.desktopFileName || \"\"\n\
    \x20   });\n\
    }\n";

/// Active window, up to the window id.
pub const ACTIVE_WINDOW_HEAD: &'static str = "var w = workspace.activeWindow;\n\
    var result = null;\n\
    if (w) { result = { id: ";

/// Active window, behind the window id.
pub const ACTIVE_WINDOW_TAIL: &'static str = ", title: w.caption,\n\
    \x20   appId: w.resourceClass || w.resourceName || \"\", pid: w.pid }; }\n";

/// Search for a window, up to the window id.
pub const FIND_WINDOW: &'static str = "var w = workspace.windowList().find(function(w) { return ";

/// Search for a window, behind the window id.
pub const IS_REQUESTED_ID: &'static str = " === %ID%; });\n";

/// Between the reply on success and the reply on failure.
pub const ELSE: &'static str = "\n\
    } else { ";

/// Behind the last reply.
pub const END: &'static str = "\n\
    }";

/// Focus the window that was found.
pub const FOCUS: &'static str = "if (w) { workspace.activeWindow = w;\n\
    \x20   ";

/// Move the window that was found, up to the geometry expression.
pub const MOVE_HEAD: &'static str = "if (w) {\n\
    \x20   var g = ";

/// Move the window that was found, behind the geometry expression.
pub const MOVE_TAIL: &'static str = ";\n\
    \x20   w.frameGeometry = { x: %X%, y: %Y%, width: g.width, height: g.height };\n\
    \x20   ";

/// Resize the window that was found, behind the geometry expression.
pub const RESIZE_TAIL: &'static str = ";\n\
    \x20   w.frameGeometry = { x: g.x, y: g.y, width: %W%, height: %H% };\n\
    \x20   ";

/// Close the window that was found.
pub const CLOSE: &'static str = "if (w) { w.closeWindow();\n\
    \x20   ";

/// Set the geometry of the window that was found.
pub const SET_GEOMETRY: &'static str = "if (w) {\n\
    \x20   w.frameGeometry = { x: %X%, y: %Y%, width: %W%, height: %H% };\n\
    \x20   ";

/// Minimise or restore the window that was found.
pub const MINIMIZE: &'static str = "if (w) { w.minimized = (%NUM% === 1);\n\
    \x20   ";

/// Maximise or restore the window that was found.
pub const MAXIMIZE: &'static str = "if (w) {\n\
    \x20   if (%NUM% === 1) { if (w.setMaximize !== undefined) { w.setMaximize(true, true); } else { w.maximizeMode = 3; } }\n\
    \x20   else { if (w.setMaximize !== undefined) { w.setMaximize(false, false); } else { w.maximizeMode = 0; } }\n\
    \x20   ";

/// List of virtual desktops, as objects.
pub const LIST_WORKSPACES_V6: &'static str = "var result = [];\n\
    var dts = workspace.desktops;\n\
    for (var i = 0; i < dts.length; i++) {\n\
    \x20   var d = dts[i];\n\
    \x20   result.push({ id: String(d.id), name: d.name || (\"Desktop \" + (i + 1)),\n\
    \x20           number: i + 1, isActive: false });\n\
    }\n\
    var cur = workspace.currentDesktop;\n\
    for (var j = 0; j < result.length; j++) { if (String(cur.id) === result[j].id) { result[j].isActive = true; } }\n";

/// List of virtual desktops, as numbers.
pub const LIST_WORKSPACES_V5: &'static str = "var n = workspace.desktops;\n\
    var result = [];\n\
    for (var k = 1; k <= n; k++) {\n\
    \x20   result.push({ id: String(k), name: \"Desktop \" + k, number: k,\n\
    \x20           isActive: (workspace.currentDesktop === k) });\n\
    }\n";

/// Switch to a virtual desktop, as an object.
pub const SWITCH_V6: &'static str = "var d = workspace.desktops.find(function(d) { return String(d.id) === %WS%; });\n\
    if (d) { workspace.currentDesktop = d;\n\
    \x20   ";

/// Switch to a virtual desktop by number, up to the reply on failure.
pub const SWITCH_V5_HEAD: &'static str = "var n = parseInt(%WS%, 10);\n\
    if (isNaN(n) || n < 1 || n > workspace.desktops) { ";

/// Switch to a virtual desktop by number, between the two replies.
pub const SWITCH_V5_TAIL: &'static str = "\n\
    } else {\n\
    \x20   workspace.currentDesktop = n;\n\
    \x20   ";

/// Move the window that was found to a virtual desktop, as an object.
pub const SEND_TO_V6: &'static str = "var d = workspace.desktops.find(function(d) { return String(d.id) === %WS%; });\n\
    if (w && d) { w.desktops = [d];\n\
    \x20   ";

/// Move the window that was found to a virtual desktop by number.
pub const SEND_TO_V5: &'static str = "if (w) { w.desktop = parseInt(%WS%, 10);\n\
    \x20   ";

/// List of screens.
pub const LIST_MONITORS: &'static str = "var screens = workspace.screens;\n\
    var result = [];\n\
    for (var m = 0; m < screens.length; m++) {\n\
    \x20   var s = screens[m];\n\
    \x20   result.push({ id: s.name, name: s.name,\n\
    \x20           geometry: { x: s.geometry.x, y: s.geometry.y,\n\
    \x20                       width: s.geometry.width, height: s.geometry.height },\n\
    \x20           scale: s.scale, isPrimary: (m === 0) });\n\
    }\n";

/// Event monitor, up to the push statement.
pub const EVENT_MONITOR_HEAD: &'static str = "function __push(payload) {\n";

/// Event monitor, behind the push statement.
pub const EVENT_MONITOR_TAIL: &'static str = "\n\
    }\n\
    function __wid(w) {\n\
    \x20   return w.internalId !== undefined ? w.internalId.toString() : String(w.id);\n\
    }\n\
    workspace.windowAdded.connect(function(w) { __push({ event: \"windowOpened\", id: __wid(w) }); });\n\
    workspace.windowRemoved.connect(function(w) { __push({ event: \"windowClosed\", id: __wid(w) }); });\n\
    workspace.activeWindowChanged.connect(function() {\n\
    \x20   var w = workspace.activeWindow;\n\
    \x20   if (w) __push({ event: \"windowFocused\", id: __wid(w) });\n\
    });\n";

// ---------------------------------------------------------------------------
// Statements that send something
// ---------------------------------------------------------------------------
/// The call of the response service, up to its argument.
pub open spec fn call_response() -> Seq<char> {
    "callDBus(\""@ + RESPONSE_SERVICE@ + "\", \""@ + RESPONSE_PATH@ + "\", \""@ + RESPONSE_IFACE@
        + "\", \""@ + RESPONSE_METHOD@ + "\", "@
}

/// The statement that sends `expr` as the result of a request.
pub open spec fn sends_result(expr: Seq<char>) -> Seq<char> {
    call_response() + "JSON.stringify({ req: \""@ + REQ_ID_TOKEN@ + "\", result: "@ + expr
        + " }));"@
}

/// The statement that sends `expr` as an event.
pub open spec fn pushes_event(expr: Seq<char>) -> Seq<char> {
    call_response() + "JSON.stringify("@ + expr + "));"@
}

fn response_call() -> (r: String)
    ensures
        r@ == call_response(),
{
    let mut out = cat3("callDBus(\"", RESPONSE_SERVICE, "\", \"");
    out.append(RESPONSE_PATH);
    out.append("\", \"");
    out.append(RESPONSE_IFACE);
    out.append("\", \"");
    out.append(RESPONSE_METHOD);
    out.append("\", ");
    out
}

/// The statement that sends `expr` as the result of a request.
pub fn send_result(expr: &str) -> (r: String)
    ensures
        r@ == sends_result(expr@),
{
    let mut out = response_call();
    out.append("JSON.stringify({ req: \"");
    out.append(REQ_ID_TOKEN);
    out.append("\", result: ");
    out.append(expr);
    out.append(" }));");
    out
}

/// The statement with which the resident script sends an event: bare JSON
/// without a `req` member, so that it is never taken for a result.
pub fn push_event(expr: &str) -> (r: String)
    ensures
        r@ == pushes_event(expr@),
{
    let mut out = response_call();
    out.append("JSON.stringify(");
    out.append(expr);
    out.append("));");
    out
}

// ---------------------------------------------------------------------------
// Templates
// ---------------------------------------------------------------------------
/// The scripts on offer.
#[derive(Clone, Copy, Debug, PartialEq, Eq, Hash, Structural)]
pub enum ScriptTemplate {
    ListWindows,
    GetActiveWindow,
    FocusWindow,
    MoveWindow,
    ResizeWindow,
    CloseWindow,
    SetWindowGeometry,
    /// Minimises with `%NUM%` 1, restores with 0.
    MinimizeWindow,
    /// Maximises with `%NUM%` 1, restores with 0.
    MaximizeWindow,
    ListWorkspaces,
    SwitchWorkspace,
    MoveWindowToWorkspace,
    ListMonitors,
    /// The resident script that reports events; it is not stopped.
    EventMonitor,
}

/// The file name of a script.
pub open spec fn script_file(t: ScriptTemplate) -> Seq<char> {
    match t {
        ScriptTemplate::ListWindows => "list_windows.js"@,
        ScriptTemplate::GetActiveWindow => "get_active_window.js"@,
        ScriptTemplate::FocusWindow => "focus_window.js"@,
        ScriptTemplate::MoveWindow => "move_window.js"@,
        ScriptTemplate::ResizeWindow => "resize_window.js"@,
        ScriptTemplate::CloseWindow => "close_window.js"@,
        ScriptTemplate::SetWindowGeometry => "set_window_geometry.js"@,
        ScriptTemplate::MinimizeWindow => "minimize_window.js"@,
        ScriptTemplate::MaximizeWindow => "maximize_window.js"@,
        ScriptTemplate::ListWorkspaces => "list_workspaces.js"@,
        ScriptTemplate::SwitchWorkspace => "switch_workspace.js"@,
        ScriptTemplate::MoveWindowToWorkspace => "move_window_to_workspace.js"@,
        ScriptTemplate::ListMonitors => "list_monitors.js"@,
        ScriptTemplate::EventMonitor => "event_monitor.js"@,
    }
}

/// The differences between the scripting interfaces of KWin 5 and KWin 6.
pub struct Compat {
    pub v6: bool,
}

/// The geometry expression for a version.
pub open spec fn geometry_expr(v6: bool) -> Seq<char> {
    if v6 {
        GEOMETRY_V6@
    } else {
        GEOMETRY_V5@
    }
}

/// The desktop expression for a version.
pub open spec fn desktop_expr(v6: bool) -> Seq<char> {
    if v6 {
        DESKTOP_V6@
    } else {
        DESKTOP_V5@
    }
}

/// Looks for the window whose identifier is the argument `ID`.
pub open spec fn finds_window() -> Seq<char> {
    FIND_WINDOW@ + WINDOW_ID@ + IS_REQUESTED_ID@
}

/// Reports success, or in the other branch the failure `err`.
pub open spec fn replies(err: Seq<char>) -> Seq<char> {
    sends_result(SUCCESS@) + ELSE@ + sends_result(err) + END@
}

/// Looks for the window, does `action` with it and reports the outcome.
pub open spec fn acts_on_window(action: Seq<char>, err: Seq<char>) -> Seq<char> {
    finds_window() + action + replies(err)
}

/// What a template does with the window that was found.
pub open spec fn window_action(v6: bool, t: ScriptTemplate) -> Seq<char> {
    match t {
        ScriptTemplate::FocusWindow => FOCUS@,
        ScriptTemplate::MoveWindow => MOVE_HEAD@ + geometry_expr(v6) + MOVE_TAIL@,
        ScriptTemplate::ResizeWindow => MOVE_HEAD@ + geometry_expr(v6) + RESIZE_TAIL@,
        ScriptTemplate::CloseWindow => CLOSE@,
        ScriptTemplate::SetWindowGeometry => SET_GEOMETRY@,
        ScriptTemplate::MinimizeWindow => MINIMIZE@,
        ScriptTemplate::MaximizeWindow => MAXIMIZE@,
        ScriptTemplate::MoveWindowToWorkspace => if v6 {
            SEND_TO_V6@
        } else {
            SEND_TO_V5@
        },
        _ => Seq::empty(),
    }
}

/// What a template reports when there is nothing to act on.
pub open spec fn window_failure(v6: bool, t: ScriptTemplate) -> Seq<char> {
    if v6 && t == ScriptTemplate::MoveWindowToWorkspace {
        NO_WINDOW_OR_WORKSPACE@
    } else {
        NO_WINDOW@
    }
}

/// The text of a template, with its placeholders.
pub open spec fn template(v6: bool, t: ScriptTemplate) -> Seq<char> {
    match t {
        ScriptTemplate::ListWindows => LIST_WINDOWS_HEAD@ + geometry_expr(v6) + LIST_WINDOWS_ID@
            + WINDOW_ID@ + LIST_WINDOWS_FIELDS@ + desktop_expr(v6) + LIST_WINDOWS_TAIL@
            + sends_result("result"@),
        ScriptTemplate::GetActiveWindow => ACTIVE_WINDOW_HEAD@ + WINDOW_ID@ + ACTIVE_WINDOW_TAIL@
            + sends_result("result"@),
        ScriptTemplate::ListWorkspaces => if v6 {
            LIST_WORKSPACES_V6@ + sends_result("result"@)
        } else {
            LIST_WORKSPACES_V5@ + sends_result("result"@)
        },
        ScriptTemplate::SwitchWorkspace => if v6 {
            SWITCH_V6@ + replies(NO_WORKSPACE@)
        } else {
            SWITCH_V5_HEAD@ + sends_result(NO_WORKSPACE@) + SWITCH_V5_TAIL@ + sends_result(SUCCESS@)
                + END@
        },
        ScriptTemplate::ListMonitors => LIST_MONITORS@ + sends_result("result"@),
        ScriptTemplate::EventMonitor => EVENT_MONITOR_HEAD@ + pushes_event("payload"@)
            + EVENT_MONITOR_TAIL@,
        _ => acts_on_window(window_action(v6, t), window_failure(v6, t)),
    }
}

fn reply(err: &str) -> (r: String)
    ensures
        r@ == replies(err@),
{
    let mut out = send_result(SUCCESS);
    let failed = send_result(err);
    out.append(ELSE);
    out.append(failed.as_str());
    out.append(END);
    out
}

fn act_on_window(action: &str, err: &str) -> (r: String)
    ensures
        r@ == acts_on_window(action@, err@),
{
    let found = cat3(FIND_WINDOW, WINDOW_ID, IS_REQUESTED_ID);
    let answer = reply(err);
    cat3(found.as_str(), action, answer.as_str())
}

impl Compat {
    /// The identifier expression; old versions without an internal identifier
    /// fall back on the plain one.
    pub fn window_id(&self) -> (r: String)
        ensures
            r@ == WINDOW_ID@,
    {
        owned(WINDOW_ID)
    }

    /// The geometry expression.
    pub fn frame_geometry(&self) -> (r: String)
        ensures
            r@ == geometry_expr(self.v6),
    {
        if self.v6 {
            owned(GEOMETRY_V6)
        } else {
            owned(GEOMETRY_V5)
        }
    }

    /// The desktop expression.
    pub fn desktop_id(&self) -> (r: String)
        ensures
            r@ == desktop_expr(self.v6),
    {
        if self.v6 {
            owned(DESKTOP_V6)
        } else {
            owned(DESKTOP_V5)
        }
    }

    /// The text of a template, with its placeholders.
    pub fn body(&self, tpl: ScriptTemplate) -> (r: String)
        ensures
            r@ == template(self.v6, tpl),
    {
        match tpl {
            ScriptTemplate::ListWindows => {
                let geo = self.frame_geometry();
                let gid = self.window_id();
                let did = self.desktop_id();
                let send = send_result("result");
                let mut out = cat3(LIST_WINDOWS_HEAD, geo.as_str(), LIST_WINDOWS_ID);
                out.append(gid.as_str());
                out.append(LIST_WINDOWS_FIELDS);
                out.append(did.as_str());
                out.append(LIST_WINDOWS_TAIL);
                out.append(send.as_str());
                out
            },
            ScriptTemplate::GetActiveWindow => {
                let gid = self.window_id();
                let send = send_result("result");
                let mut out = cat3(ACTIVE_WINDOW_HEAD, gid.as_str(), ACTIVE_WINDOW_TAIL);
                out.append(send.as_str());
                out
            },
            ScriptTemplate::FocusWindow => act_on_window(FOCUS, NO_WINDOW),
            // The window protocol cannot set geometry, so moving and resizing
            // always go through a script.
            ScriptTemplate::MoveWindow => {
                let geo = self.frame_geometry();
                let action = cat3(MOVE_HEAD, geo.as_str(), MOVE_TAIL);
                act_on_window(action.as_str(), NO_WINDOW)
            },
            ScriptTemplate::ResizeWindow => {
                let geo = self.frame_geometry();
                let action = cat3(MOVE_HEAD, geo.as_str(), RESIZE_TAIL);
                act_on_window(action.as_str(), NO_WINDOW)
            },
            ScriptTemplate::CloseWindow => act_on_window(CLOSE, NO_WINDOW),
            ScriptTemplate::SetWindowGeometry => act_on_window(SET_GEOMETRY, NO_WINDOW),
            ScriptTemplate::MinimizeWindow => act_on_window(MINIMIZE, NO_WINDOW),
            ScriptTemplate::MaximizeWindow => act_on_window(MAXIMIZE, NO_WINDOW),
            ScriptTemplate::ListWorkspaces => {
                let send = send_result("result");
                if self.v6 {
                    cat(LIST_WORKSPACES_V6, send.as_str())
                } else {
                    cat(LIST_WORKSPACES_V5, send.as_str())
                }
            },
            ScriptTemplate::SwitchWorkspace => {
                if self.v6 {
                    let answer = reply(NO_WORKSPACE);
                    cat(SWITCH_V6, answer.as_str())
                } else {
                    // Desktops are numbers here: an invalid one is reported, not
                    // assigned.
                    let ok = send_result(SUCCESS);
                    let err = send_result(NO_WORKSPACE);
                    let mut out = cat3(SWITCH_V5_HEAD, err.as_str(), SWITCH_V5_TAIL);
                    out.append(ok.as_str());
                    out.append(END);
                    out
                }
            },
            ScriptTemplate::MoveWindowToWorkspace => {
                if self.v6 {
                    act_on_window(SEND_TO_V6, NO_WINDOW_OR_WORKSPACE)
                } else {
                    act_on_window(SEND_TO_V5, NO_WINDOW)
                }
            },
            ScriptTemplate::ListMonitors => {
                let send = send_result("result");
                cat(LIST_MONITORS, send.as_str())
            },
            ScriptTemplate::EventMonitor => {
                let push = push_event("payload");
                cat3(EVENT_MONITOR_HEAD, push.as_str(), EVENT_MONITOR_TAIL)
            },
        }
    }
}

impl ScriptTemplate {
    /// The file name of the script.
    pub fn file_name(&self) -> (r: &'static str)
        ensures
            r@ == script_file(*self),
    {
        match self {
            ScriptTemplate::ListWindows => "list_windows.js",
            ScriptTemplate::GetActiveWindow => "get_active_window.js",
            ScriptTemplate::FocusWindow => "focus_window.js",
            ScriptTemplate::MoveWindow => "move_window.js",
            ScriptTemplate::ResizeWindow => "resize_window.js",
            ScriptTemplate::CloseWindow => "close_window.js",
            ScriptTemplate::SetWindowGeometry => "set_window_geometry.js",
            ScriptTemplate::MinimizeWindow => "minimize_window.js",
            ScriptTemplate::MaximizeWindow => "maximize_window.js",
            ScriptTemplate::ListWorkspaces => "list_workspaces.js",
            ScriptTemplate::SwitchWorkspace => "switch_workspace.js",
            ScriptTemplate::MoveWindowToWorkspace => "move_window_to_workspace.js",
            ScriptTemplate::ListMonitors => "list_monitors.js",
            ScriptTemplate::EventMonitor => "event_monitor.js",
        }
    }

    /// The script with its placeholders filled in from `args`, for KWin 6 or
    /// KWin 5.
    pub fn render(&self, v6: bool, args: &[(&str, Json)]) -> (r: Result<String, KWinError>)
        ensures
            script_view(r) == filled(template(v6, *self), args@),
    {
        let compat = Compat { v6 };
        let body = compat.body(*self);
        subst(body.as_str(), args)
    }
}

// ---------------------------------------------------------------------------
// Placeholders
// ---------------------------------------------------------------------------
/// The view of a rendering result.
pub open spec fn script_view(r: Result<String, KWinError>) -> Result<Seq<char>, KWinErrorView> {
    match r {
        Ok(s) => Ok(s@),
        Err(e) => Err(e@),
    }
}

/// The placeholder for the argument called `key`.
pub open spec fn placeholder(key: Seq<char>) -> Seq<char> {
    "%"@ + key + "%"@
}

/// What an argument becomes in a script.
pub open spec fn argument(key: Seq<char>, val: Json) -> Result<Seq<char>, KWinErrorView> {
    match val {
        Json::Str(s) => Ok(js_literal(s@)),
        Json::Number(n) => Ok(n.text()),
        other => Err(
            KWinErrorView::InvalidScriptOutput(
                "unsupported arg type for %"@ + key + "%: "@ + printed(other),
            ),
        ),
    }
}

/// The text up to the second percent sign, from the first one on.
pub open spec fn first_unresolved(text: Seq<char>) -> Seq<char> {
    split(text, '%')[1]
}

/// `text` with the arguments put in one after the other. An argument that
/// cannot be written, one without a placeholder, and a percent sign that is left
/// over at the end are errors.
pub open spec fn filled(text: Seq<char>, args: Seq<(&str, Json)>) -> Result<
    Seq<char>,
    KWinErrorView,
>
    decreases args.len(),
{
    if args.len() == 0 {
        if text.contains('%') {
            Err(
                KWinErrorView::Scripting(
                    "unresolved placeholder in rendered script: "@ + first_unresolved(text),
                ),
            )
        } else {
            Ok(text)
        }
    } else {
        let key = args[0].0@;
        match argument(key, args[0].1) {
            Err(e) => Err(e),
            Ok(by) => if contains(text, placeholder(key)) {
                filled(replace(text, placeholder(key), by), args.skip(1))
            } else {
                Err(KWinErrorView::Scripting("template has no placeholder "@ + placeholder(key)))
            },
        }
    }
}

fn argument_text(key: &str, val: &Json) -> (r: Result<String, KWinError>)
    ensures
        script_view(r) == argument(key@, *val),
{
    match val {
        Json::Str(s) => Ok(js_string(s.as_str())),
        Json::Number(n) => Ok(n.to_text()),
        other => {
            let shown = print(other);
            let mut out = cat3("unsupported arg type for %", key, "%: ");
            out.append(shown.as_str());
            Err(KWinError::InvalidScriptOutput(out))
        },
    }
}

/// A percent sign cuts a text into at least two pieces.
proof fn lemma_percent_splits(s: Seq<char>)
    ensures
        s.contains('%') <==> split(s, '%').len() > 1,
    decreases s.len(),
{
    if s.len() > 0 {
        lemma_percent_splits(s.drop_last());
        crate::text::lemma_split_len(s.drop_last(), '%');
        if s.last() == '%' {
            assert(s[s.len() - 1] == '%');
        } else if s.contains('%') {
            let i = choose|i: int| 0 <= i < s.len() && s[i] == '%';
            assert(s.drop_last()[i] == '%');
        } else if s.drop_last().contains('%') {
            let i = choose|i: int| 0 <= i < s.len() - 1 && s.drop_last()[i] == '%';
            assert(s[i] == '%');
        }
    }
}

/// Puts the arguments into a template. Text arguments become string literals,
/// numbers are written as they are. The placeholder of the request identifier
/// holds no percent sign and stays for the caller.
pub fn subst(body: &str, args: &[(&str, Json)]) -> (r: Result<String, KWinError>)
    ensures
        script_view(r) == filled(body@, args@),
{
    let mut out = owned(body);
    let mut i: usize = 0;
    assert(args@.skip(0) =~= args@);
    while i < args.len()
        invariant
            i <= args@.len(),
            filled(out@, args@.skip(i as int)) == filled(body@, args@),
        decreases args@.len() - i,
    {
        let key: &str = args[i].0;
        let by = match argument_text(key, &args[i].1) {
            Ok(t) => t,
            Err(e) => return Err(e),
        };
        let token = cat3("%", key, "%");
        proof {
            reveal_strlit("%");
        }
        if !has_text(out.as_str(), token.as_str()) {
            return Err(KWinError::Scripting(cat("template has no placeholder ", token.as_str())));
        }
        out = replaced(out.as_str(), token.as_str(), by.as_str());
        assert(args@.skip(i as int).skip(1) =~= args@.skip(i as int + 1));
        i = i + 1;
    }
    let parts = split_at_char(out.as_str(), '%');
    proof {
        lemma_percent_splits(out@);
        assert(parts@.len() > 1 ==> parts@[1]@ == texts(parts@)[1]);
    }
    if parts.len() > 1 {
        return Err(
            KWinError::Scripting(
                cat("unresolved placeholder in rendered script: ", parts[1].as_str()),
            ),
        );
    }
    Ok(out)
}

/// A script that was rendered holds no percent sign: nothing in it is left
/// unresolved.
pub proof fn law_rendered_script_is_resolved(text: Seq<char>, args: Seq<(&str, Json)>)
    ensures
        filled(text, args) matches Ok(out) ==> !out.contains('%'),
    decreases args.len(),
{
    if args.len() > 0 {
        let key = args[0].0@;
        match argument(key, args[0].1) {
            Ok(by) => {
                law_rendered_script_is_resolved(replace(text, placeholder(key), by), args.skip(1));
            },
            Err(_) => {},
        }
    }
}

// ---------------------------------------------------------------------------
// String literals
// ---------------------------------------------------------------------------
/// The hexadecimal digit `d`, in lower case.
pub open spec fn hex_digit(d: u32) -> char {
    if d < 10 {
        (48 + d) as char
    } else {
        (87 + d) as char
    }
}

/// How a character is written inside a string literal.
pub open spec fn escape(c: char) -> Seq<char> {
    if c == '"' {
        seq!['\\', '"']
    } else if c == '\\' {
        seq!['\\', '\\']
    } else if c == '\n' {
        seq!['\\', 'n']
    } else if c == '\r' {
        seq!['\\', 'r']
    } else if c == '\t' {
        seq!['\\', 't']
    } else if (c as u32) < 0x20 {
        seq!['\\', 'u', '0', '0', hex_digit(c as u32 / 16), hex_digit(c as u32 % 16)]
    } else {
        seq![c]
    }
}

/// How a text is written inside a string literal.
pub open spec fn escaped(s: Seq<char>) -> Seq<char>
    decreases s.len(),
{
    if s.len() == 0 {
        Seq::empty()
    } else {
        escaped(s.drop_last()) + escape(s.last())
    }
}

/// The string literal for a text.
pub open spec fn js_literal(s: Seq<char>) -> Seq<char> {
    seq!['"'] + escaped(s) + seq!['"']
}

/// The value of a lower-case hexadecimal digit.
pub open spec fn hex_value(c: char) -> Option<u32> {
    if '0' <= c <= '9' {
        Some((c as u32 - 48) as u32)
    } else if 'a' <= c <= 'f' {
        Some((c as u32 - 87) as u32)
    } else {
        None
    }
}

/// `c` in front of a text that could be read.
pub open spec fn behind(c: char, rest: Option<Seq<char>>) -> Option<Seq<char>> {
    match rest {
        Some(s) => Some(seq![c] + s),
        None => None,
    }
}

/// What the inside of a string literal denotes. A quotation mark that is not
/// escaped would end the literal and is refused, as is a control character.
pub open spec fn unescaped(t: Seq<char>) -> Option<Seq<char>>
    decreases t.len(),
{
    if t.len() == 0 {
        Some(Seq::empty())
    } else if t[0] == '"' || (t[0] as u32) < 0x20 {
        None
    } else if t[0] != '\\' {
        behind(t[0], unescaped(t.skip(1)))
    } else if t.len() < 2 {
        None
    } else if t[1] == '"' || t[1] == '\\' {
        behind(t[1], unescaped(t.skip(2)))
    } else if t[1] == 'n' {
        behind('\n', unescaped(t.skip(2)))
    } else if t[1] == 'r' {
        behind('\r', unescaped(t.skip(2)))
    } else if t[1] == 't' {
        behind('\t', unescaped(t.skip(2)))
    } else if t[1] == 'u' && t.len() >= 6 && t[2] == '0' && t[3] == '0' {
        match (hex_value(t[4]), hex_value(t[5])) {
            (Some(h), Some(l)) => behind((h * 16 + l) as char, unescaped(t.skip(6))),
            _ => None,
        }
    } else {
        None
    }
}

/// Escaping works from the left as well.
proof fn lemma_escaped_front(s: Seq<char>)
    requires
        s.len() > 0,
    ensures
        escaped(s) == escape(s[0]) + escaped(s.skip(1)),
    decreases s.len(),
{
    if s.len() == 1 {
        assert(s.drop_last() =~= Seq::<char>::empty());
        assert(s.skip(1) =~= Seq::<char>::empty());
        assert(escaped(s) =~= escape(s[0]) + escaped(s.skip(1)));
    } else {
        lemma_escaped_front(s.drop_last());
        assert(s.drop_last().skip(1) =~= s.skip(1).drop_last());
        assert(escaped(s) =~= escape(s[0]) + escaped(s.skip(1)));
    }
}

/// Reading takes back the escaping of one character.
proof fn lemma_unescape_one(c: char, rest: Seq<char>)
    ensures
        unescaped(escape(c) + rest) == behind(c, unescaped(rest)),
{
    let t = escape(c) + rest;
    let n = escape(c).len();
    assert(t.skip(n as int) =~= rest);
    if c == '"' || c == '\\' || c == '\n' || c == '\r' || c == '\t' {
        assert(t[0] == '\\');
        assert(t.skip(2) =~= rest);
    } else if (c as u32) < 0x20 {
        let h = c as u32 / 16;
        let l = c as u32 % 16;
        assert(t[4] == hex_digit(h) && t[5] == hex_digit(l));
        assert(hex_value(hex_digit(h)) == Some(h));
        assert(hex_value(hex_digit(l)) == Some(l));
        assert(t.skip(6) =~= rest);
    } else {
        assert(t[0] == c);
        assert(t.skip(1) =~= rest);
    }
}

/// A string literal denotes exactly the text it was made from: no character of
/// the text ends the literal early or changes what it means.
pub proof fn law_literal_denotes_text(s: Seq<char>)
    ensures
        unescaped(escaped(s)) == Some(s),
    decreases s.len(),
{
    if s.len() > 0 {
        lemma_escaped_front(s);
        lemma_unescape_one(s[0], escaped(s.skip(1)));
        law_literal_denotes_text(s.skip(1));
        assert(seq![s[0]] + s.skip(1) =~= s);
    }
}

fn hex_char(d: u32) -> (r: char)
    requires
        d < 16,
    ensures
        r == hex_digit(d),
{
    let b: u8 = d as u8;
    if b < 10 {
        (48 + b) as char
    } else {
        (87 + b) as char
    }
}

/// The string literal for `s`: quotation marks, backslashes and control
/// characters are escaped.
pub fn js_string(s: &str) -> (r: String)
    ensures
        r@ == js_literal(s@),
{
    let v = chars_of(s);
    let mut out = String::new();
    out.push('"');
    assert(out@ =~= seq!['"'] + escaped(s@.take(0)));
    let mut i: usize = 0;
    while i < v.len()
        invariant
            i <= v.len(),
            v@ == s@,
            out@ == seq!['"'] + escaped(s@.take(i as int)),
        decreases v.len() - i,
    {
        let c = v[i];
        let ghost had = out@;
        if c == '"' || c == '\\' {
            out.push('\\');
            out.push(c);
        } else if c == '\n' {
            out.push('\\');
            out.push('n');
        } else if c == '\r' {
            out.push('\\');
            out.push('r');
        } else if c == '\t' {
            out.push('\\');
            out.push('t');
        } else if (c as u32) < 0x20 {
            out.push('\\');
            out.push('u');
            out.push('0');
            out.push('0');
            out.push(hex_char(c as u32 / 16));
            out.push(hex_char(c as u32 % 16));
        } else {
            out.push(c);
        }
        assert(out@ =~= had + escape(c));
        assert(s@.take(i as int + 1).drop_last() =~= s@.take(i as int));
        i = i + 1;
        assert(out@ =~= seq!['"'] + escaped(s@.take(i as int)));
    }
    assert(s@.take(i as int) =~= s@);
    out.push('"');
    assert(out@ =~= js_literal(s@));
    out
}

/// A query asks to be answered: every one-shot script carries the placeholder
/// of the request identifier.
pub proof fn law_query_carries_request_id(v6: bool, t: ScriptTemplate)
    requires
        t != ScriptTemplate::EventMonitor,
    ensures
        contains(template(v6, t), REQ_ID_TOKEN@),
{
    let a = call_response() + "JSON.stringify({ req: \""@;
    assert forall|x: Seq<char>, e: Seq<char>, y: Seq<char>|
        contains(#[trigger] (x + sends_result(e) + y), REQ_ID_TOKEN@) by {
        let whole = x + sends_result(e) + y;
        let i = (x + a).len() as int;
        assert(whole.subrange(i, i + REQ_ID_TOKEN@.len()) =~= REQ_ID_TOKEN@);
        assert(occurs_at(whole, REQ_ID_TOKEN@, i));
    }
    let text = template(v6, t);
    let none = Seq::<char>::empty();
    match t {
        ScriptTemplate::ListWindows => {
            let x = LIST_WINDOWS_HEAD@ + geometry_expr(v6) + LIST_WINDOWS_ID@ + WINDOW_ID@
                + LIST_WINDOWS_FIELDS@ + desktop_expr(v6) + LIST_WINDOWS_TAIL@;
            assert(text =~= x + sends_result("result"@) + none);
        },
        ScriptTemplate::GetActiveWindow => {
            let x = ACTIVE_WINDOW_HEAD@ + WINDOW_ID@ + ACTIVE_WINDOW_TAIL@;
            assert(text =~= x + sends_result("result"@) + none);
        },
        ScriptTemplate::ListWorkspaces => {
            let x = if v6 {
                LIST_WORKSPACES_V6@
            } else {
                LIST_WORKSPACES_V5@
            };
            assert(text =~= x + sends_result("result"@) + none);
        },
        ScriptTemplate::ListMonitors => {
            assert(text =~= LIST_MONITORS@ + sends_result("result"@) + none);
        },
        ScriptTemplate::SwitchWorkspace => {
            if v6 {
                let y = ELSE@ + sends_result(NO_WORKSPACE@) + END@;
                assert(text =~= SWITCH_V6@ + sends_result(SUCCESS@) + y);
            } else {
                let y = SWITCH_V5_TAIL@ + sends_result(SUCCESS@) + END@;
                assert(text =~= SWITCH_V5_HEAD@ + sends_result(NO_WORKSPACE@) + y);
            }
        },
        _ => {
            let action = window_action(v6, t);
            let err = window_failure(v6, t);
            let y = ELSE@ + sends_result(err) + END@;
            assert(text =~= (finds_window() + action) + sends_result(SUCCESS@) + y);
        },
    }
}

/// A text without the letter that only the request identifier holds does not
/// hold the request identifier.
proof fn lemma_no_token(text: Seq<char>)
    requires
        !text.contains('Q'),
    ensures
        !contains(text, REQ_ID_TOKEN@),
{
    reveal_strlit("__AGENT_SHELL_REQ_ID__");
    let token = REQ_ID_TOKEN@;
    assert forall|i: int| !occurs_at(text, token, i) by {
        if occurs_at(text, token, i) {
            assert(text.subrange(i, i + token.len())[16] == 'Q');
            assert(text[i + 16] == 'Q');
        }
    }
}

/// A letter that the resident script does without.
proof fn lemma_event_script_letters(v6: bool)
    ensures
        !template(v6, ScriptTemplate::EventMonitor).contains('Q'),
{
    assert(!EVENT_MONITOR_HEAD@.contains('Q')) by {
        reveal_strlit("function __push(payload) {\n");
    }
    assert(!pushes_event("payload"@).contains('Q')) by {
        reveal_strlit("callDBus(\"");
        reveal_strlit("com.agent_shell.Response");
        reveal_strlit("\", \"");
        reveal_strlit("/com/agent_shell/response");
        reveal_strlit("sendResult");
        reveal_strlit("\", ");
        reveal_strlit("JSON.stringify(");
        reveal_strlit("payload");
        reveal_strlit("));");
    }
    assert(!EVENT_MONITOR_TAIL@.contains('Q')) by {
        reveal_strlit("\n\
    }\n\
    function __wid(w) {\n\
    \x20   return w.internalId !== undefined ? w.internalId.toString() : String(w.id);\n\
    }\n\
    workspace.windowAdded.connect(function(w) { __push({ event: \"windowOpened\", id: __wid(w) }); });\n\
    workspace.windowRemoved.connect(function(w) { __push({ event: \"windowClosed\", id: __wid(w) }); });\n\
    workspace.activeWindowChanged.connect(function() {\n\
    \x20   var w = workspace.activeWindow;\n\
    \x20   if (w) __push({ event: \"windowFocused\", id: __wid(w) });\n\
    });\n");
    }
}

/// The resident script carries no request identifier: what it sends is never
/// taken for the result of a query.
pub proof fn law_event_script_carries_no_request_id(v6: bool)
    ensures
        !contains(template(v6, ScriptTemplate::EventMonitor), REQ_ID_TOKEN@),
{
    lemma_event_script_letters(v6);
    lemma_no_token(template(v6, ScriptTemplate::EventMonitor));
}

} // verus!
