//! The scripts that come of calls.
//!
//! Each template is taken apart at its placeholders here; what comes of it is the
//! script of its layout.

use vstd::prelude::*;

use crate::json::{Json, JsonNumber};
use crate::kwin::compositor::{arg_view, arg_views, ScriptCall};
use crate::kwin::error::KWinErrorView;
use crate::kwin::layout::{
    apart, given, is_key, laid, law_argument_is_in_the_script,
    law_filling_in_puts_arguments_in_place, lemma_plain_add, plain, value, writable, Layout,
};
use crate::kwin::scripts::{
    argument, call_response, desktop_expr, escape, escaped, filled, geometry_expr, hex_digit,
    js_literal, placeholder, pushes_event, replies, sends_result, template, window_failure,
    ScriptTemplate, ACTIVE_WINDOW_HEAD, ACTIVE_WINDOW_TAIL, CLOSE, DESKTOP_V5, DESKTOP_V6, ELSE,
    END, EVENT_MONITOR_HEAD, EVENT_MONITOR_TAIL, FIND_WINDOW, FOCUS, GEOMETRY_V5, GEOMETRY_V6,
    IS_REQUESTED_ID, LIST_MONITORS, LIST_WINDOWS_FIELDS, LIST_WINDOWS_HEAD, LIST_WINDOWS_ID,
    LIST_WINDOWS_TAIL, LIST_WORKSPACES_V5, LIST_WORKSPACES_V6, MAXIMIZE, MINIMIZE, MOVE_HEAD,
    MOVE_TAIL, NO_WINDOW, NO_WINDOW_OR_WORKSPACE, NO_WORKSPACE, REQ_ID_TOKEN, RESIZE_TAIL,
    RESPONSE_IFACE, RESPONSE_METHOD, RESPONSE_PATH, RESPONSE_SERVICE, SEND_TO_V5, SEND_TO_V6,
    SET_GEOMETRY, SUCCESS, SWITCH_V5_HEAD, SWITCH_V5_TAIL, SWITCH_V6, WINDOW_ID,
};
use crate::text::{contains, dec, is_digit, lemma_dec_is_number};

verus! {

/// Up to the identifier of the window that is looked for.
pub open spec fn up_to_id() -> Seq<char> {
    FIND_WINDOW@ + WINDOW_ID@ + " === "@
}

/// Between the identifier and what is done with the window.
pub open spec fn behind_id() -> Seq<char> {
    "; });\n"@
}

/// A template taken apart at its placeholders.
pub open spec fn layout(v6: bool, t: ScriptTemplate) -> Layout {
    let done = replies(window_failure(v6, t));
    match t {
        ScriptTemplate::FocusWindow => laid(
            up_to_id(),
            seq![("ID"@, behind_id() + FOCUS@ + done)],
        ),
        ScriptTemplate::CloseWindow => laid(
            up_to_id(),
            seq![("ID"@, behind_id() + CLOSE@ + done)],
        ),
        ScriptTemplate::MoveWindow => laid(
            up_to_id(),
            seq![
                (
                    "ID"@,
                    behind_id() + MOVE_HEAD@ + geometry_expr(v6)
                        + ";\n    w.frameGeometry = { x: "@,
                ),
                ("X"@, ", y: "@),
                ("Y"@, ", width: g.width, height: g.height };\n    "@ + done),
            ],
        ),
        ScriptTemplate::ResizeWindow => laid(
            up_to_id(),
            seq![
                (
                    "ID"@,
                    behind_id() + MOVE_HEAD@ + geometry_expr(v6)
                        + ";\n    w.frameGeometry = { x: g.x, y: g.y, width: "@,
                ),
                ("W"@, ", height: "@),
                ("H"@, " };\n    "@ + done),
            ],
        ),
        ScriptTemplate::SetWindowGeometry => laid(
            up_to_id(),
            seq![
                ("ID"@, behind_id() + "if (w) {\n    w.frameGeometry = { x: "@),
                ("X"@, ", y: "@),
                ("Y"@, ", width: "@),
                ("W"@, ", height: "@),
                ("H"@, " };\n    "@ + done),
            ],
        ),
        ScriptTemplate::MinimizeWindow => laid(
            up_to_id(),
            seq![
                ("ID"@, behind_id() + "if (w) { w.minimized = ("@),
                ("NUM"@, " === 1);\n    "@ + done),
            ],
        ),
        ScriptTemplate::MaximizeWindow => laid(
            up_to_id(),
            seq![
                ("ID"@, behind_id() + "if (w) {\n    if ("@),
                ("NUM"@, maximizes() + done),
            ],
        ),
        ScriptTemplate::MoveWindowToWorkspace => if v6 {
            laid(
                up_to_id(),
                seq![
                    ("ID"@, behind_id() + finds_desktop()),
                    ("WS"@, "; });\nif (w && d) { w.desktops = [d];\n    "@ + done),
                ],
            )
        } else {
            laid(
                up_to_id(),
                seq![
                    ("ID"@, behind_id() + "if (w) { w.desktop = parseInt("@),
                    ("WS"@, ", 10);\n    "@ + done),
                ],
            )
        },
        ScriptTemplate::SwitchWorkspace => if v6 {
            laid(
                finds_desktop(),
                seq![
                    (
                        "WS"@,
                        "; });\nif (d) { workspace.currentDesktop = d;\n    "@ + replies(
                            NO_WORKSPACE@,
                        ),
                    ),
                ],
            )
        } else {
            laid(
                "var n = parseInt("@,
                seq![
                    (
                        "WS"@,
                        ", 10);\nif (isNaN(n) || n < 1 || n > workspace.desktops) { "@
                            + sends_result(NO_WORKSPACE@) + SWITCH_V5_TAIL@ + sends_result(SUCCESS@)
                            + END@,
                    ),
                ],
            )
        },
        _ => laid(template(v6, t), Seq::empty()),
    }
}

/// Up to the identifier of the virtual desktop that is looked for.
pub open spec fn finds_desktop() -> Seq<char> {
    "var d = workspace.desktops.find(function(d) { return String(d.id) === "@
}

/// What follows the switch of maximising.
pub open spec fn maximizes() -> Seq<char> {
    " === 1) { if (w.setMaximize !== undefined) { w.setMaximize(true, true); } else { w.maximizeMode = 3; } }\n\
    \x20   else { if (w.setMaximize !== undefined) { w.setMaximize(false, false); } else { w.maximizeMode = 0; } }\n\
    \x20   "@
}

/// The pieces of the templates that hold a placeholder.
proof fn lemma_pieces()
    ensures
        IS_REQUESTED_ID@ == " === "@ + placeholder("ID"@) + behind_id(),
        MOVE_TAIL@ == ";\n    w.frameGeometry = { x: "@ + placeholder("X"@) + ", y: "@
            + placeholder("Y"@) + ", width: g.width, height: g.height };\n    "@,
        RESIZE_TAIL@ == ";\n    w.frameGeometry = { x: g.x, y: g.y, width: "@ + placeholder("W"@)
            + ", height: "@ + placeholder("H"@) + " };\n    "@,
        SET_GEOMETRY@ == "if (w) {\n    w.frameGeometry = { x: "@ + placeholder("X"@) + ", y: "@
            + placeholder("Y"@) + ", width: "@ + placeholder("W"@) + ", height: "@ + placeholder(
            "H"@,
        ) + " };\n    "@,
        MINIMIZE@ == "if (w) { w.minimized = ("@ + placeholder("NUM"@) + " === 1);\n    "@,
        MAXIMIZE@ == "if (w) {\n    if ("@ + placeholder("NUM"@) + maximizes(),
        SEND_TO_V6@ == finds_desktop() + placeholder("WS"@)
            + "; });\nif (w && d) { w.desktops = [d];\n    "@,
        SEND_TO_V5@ == "if (w) { w.desktop = parseInt("@ + placeholder("WS"@) + ", 10);\n    "@,
        SWITCH_V6@ == finds_desktop() + placeholder("WS"@)
            + "; });\nif (d) { workspace.currentDesktop = d;\n    "@,
        SWITCH_V5_HEAD@ == "var n = parseInt("@ + placeholder("WS"@)
            + ", 10);\nif (isNaN(n) || n < 1 || n > workspace.desktops) { "@,
{
    reveal_strlit("%");
    reveal_strlit("ID");
    reveal_strlit("X");
    reveal_strlit("Y");
    reveal_strlit("W");
    reveal_strlit("H");
    reveal_strlit("NUM");
    reveal_strlit("WS");
    assert(IS_REQUESTED_ID@ =~= " === "@ + placeholder("ID"@) + behind_id()) by {
        reveal_strlit(" === %ID%; });\n");
        reveal_strlit(" === ");
        reveal_strlit("; });\n");
    }
    assert(MOVE_TAIL@ =~= ";\n    w.frameGeometry = { x: "@ + placeholder("X"@) + ", y: "@
        + placeholder("Y"@) + ", width: g.width, height: g.height };\n    "@) by {
        reveal_strlit(
            ";\n    w.frameGeometry = { x: %X%, y: %Y%, width: g.width, height: g.height };\n    ",
        );
        reveal_strlit(";\n    w.frameGeometry = { x: ");
        reveal_strlit(", y: ");
        reveal_strlit(", width: g.width, height: g.height };\n    ");
    }
    assert(RESIZE_TAIL@ =~= ";\n    w.frameGeometry = { x: g.x, y: g.y, width: "@ + placeholder(
        "W"@,
    ) + ", height: "@ + placeholder("H"@) + " };\n    "@) by {
        reveal_strlit(
            ";\n    w.frameGeometry = { x: g.x, y: g.y, width: %W%, height: %H% };\n    ",
        );
        reveal_strlit(";\n    w.frameGeometry = { x: g.x, y: g.y, width: ");
        reveal_strlit(", height: ");
        reveal_strlit(" };\n    ");
    }
    assert(SET_GEOMETRY@ =~= "if (w) {\n    w.frameGeometry = { x: "@ + placeholder("X"@) + ", y: "@
        + placeholder("Y"@) + ", width: "@ + placeholder("W"@) + ", height: "@ + placeholder("H"@)
        + " };\n    "@) by {
        reveal_strlit(
            "if (w) {\n    w.frameGeometry = { x: %X%, y: %Y%, width: %W%, height: %H% };\n    ",
        );
        reveal_strlit("if (w) {\n    w.frameGeometry = { x: ");
        reveal_strlit(", y: ");
        reveal_strlit(", width: ");
        reveal_strlit(", height: ");
        reveal_strlit(" };\n    ");
    }
    assert(MINIMIZE@ =~= "if (w) { w.minimized = ("@ + placeholder("NUM"@) + " === 1);\n    "@) by {
        reveal_strlit("if (w) { w.minimized = (%NUM% === 1);\n    ");
        reveal_strlit("if (w) { w.minimized = (");
        reveal_strlit(" === 1);\n    ");
    }
    assert(MAXIMIZE@ =~= "if (w) {\n    if ("@ + placeholder("NUM"@) + maximizes()) by {
        reveal_strlit("if (w) {\n\
    \x20   if (%NUM% === 1) { if (w.setMaximize !== undefined) { w.setMaximize(true, true); } else { w.maximizeMode = 3; } }\n\
    \x20   else { if (w.setMaximize !== undefined) { w.setMaximize(false, false); } else { w.maximizeMode = 0; } }\n\
    \x20   ");
        reveal_strlit("if (w) {\n    if (");
        reveal_strlit(" === 1) { if (w.setMaximize !== undefined) { w.setMaximize(true, true); } else { w.maximizeMode = 3; } }\n\
    \x20   else { if (w.setMaximize !== undefined) { w.setMaximize(false, false); } else { w.maximizeMode = 0; } }\n\
    \x20   ");
    }
    assert(SEND_TO_V6@ =~= finds_desktop() + placeholder("WS"@)
        + "; });\nif (w && d) { w.desktops = [d];\n    "@) by {
        reveal_strlit(
            "var d = workspace.desktops.find(function(d) { return String(d.id) === %WS%; });\nif (w && d) { w.desktops = [d];\n    ",
        );
        reveal_strlit("var d = workspace.desktops.find(function(d) { return String(d.id) === ");
        reveal_strlit("; });\nif (w && d) { w.desktops = [d];\n    ");
    }
    assert(SEND_TO_V5@ =~= "if (w) { w.desktop = parseInt("@ + placeholder("WS"@)
        + ", 10);\n    "@) by {
        reveal_strlit("if (w) { w.desktop = parseInt(%WS%, 10);\n    ");
        reveal_strlit("if (w) { w.desktop = parseInt(");
        reveal_strlit(", 10);\n    ");
    }
    assert(SWITCH_V6@ =~= finds_desktop() + placeholder("WS"@)
        + "; });\nif (d) { workspace.currentDesktop = d;\n    "@) by {
        reveal_strlit(
            "var d = workspace.desktops.find(function(d) { return String(d.id) === %WS%; });\nif (d) { workspace.currentDesktop = d;\n    ",
        );
        reveal_strlit("var d = workspace.desktops.find(function(d) { return String(d.id) === ");
        reveal_strlit("; });\nif (d) { workspace.currentDesktop = d;\n    ");
    }
    assert(SWITCH_V5_HEAD@ =~= "var n = parseInt("@ + placeholder("WS"@)
        + ", 10);\nif (isNaN(n) || n < 1 || n > workspace.desktops) { "@) by {
        reveal_strlit(
            "var n = parseInt(%WS%, 10);\nif (isNaN(n) || n < 1 || n > workspace.desktops) { ",
        );
        reveal_strlit("var n = parseInt(");
        reveal_strlit(", 10);\nif (isNaN(n) || n < 1 || n > workspace.desktops) { ");
    }
}

/// The pieces of the templates that hold no placeholder.
proof fn lemma_plain_pieces()
    ensures
        plain(FIND_WINDOW@),
        plain(WINDOW_ID@),
        plain(GEOMETRY_V6@),
        plain(GEOMETRY_V5@),
        plain(DESKTOP_V6@),
        plain(DESKTOP_V5@),
        plain(LIST_WINDOWS_HEAD@),
        plain(LIST_WINDOWS_ID@),
        plain(LIST_WINDOWS_FIELDS@),
        plain(LIST_WINDOWS_TAIL@),
        plain(ACTIVE_WINDOW_HEAD@),
        plain(ACTIVE_WINDOW_TAIL@),
        plain(ELSE@),
        plain(END@),
        plain(FOCUS@),
        plain(MOVE_HEAD@),
        plain(CLOSE@),
        plain(LIST_WORKSPACES_V6@),
        plain(LIST_WORKSPACES_V5@),
        plain(SWITCH_V5_TAIL@),
        plain(LIST_MONITORS@),
        plain(EVENT_MONITOR_HEAD@),
        plain(EVENT_MONITOR_TAIL@),
        plain(SUCCESS@),
        plain(NO_WINDOW@),
        plain(NO_WORKSPACE@),
        plain(NO_WINDOW_OR_WORKSPACE@),
        plain(RESPONSE_SERVICE@),
        plain(RESPONSE_PATH@),
        plain(RESPONSE_METHOD@),
        plain(REQ_ID_TOKEN@),
{
    assert(plain(FIND_WINDOW@)) by {
        reveal_strlit("var w = workspace.windowList().find(function(w) { return ");
    }
    assert(plain(WINDOW_ID@)) by {
        reveal_strlit("(w.internalId !== undefined ? w.internalId.toString() : String(w.id))");
    }
    assert(plain(GEOMETRY_V6@)) by {
        reveal_strlit("(w.frameGeometry || w.geometry)");
    }
    assert(plain(GEOMETRY_V5@)) by {
        reveal_strlit("w.geometry");
    }
    assert(plain(DESKTOP_V6@)) by {
        reveal_strlit("(w.desktops && w.desktops.length ? w.desktops[0].id : -1)");
    }
    assert(plain(DESKTOP_V5@)) by {
        reveal_strlit("(typeof w.desktop === \"number\" ? w.desktop : -1)");
    }
    assert(plain(LIST_WINDOWS_HEAD@)) by {
        reveal_strlit("var windows = workspace.windowList();\n\
    var result = [];\n\
    for (var i = 0; i < windows.length; i++) {\n\
    \x20   var w = windows[i];\n\
    \x20   var g = ");
    }
    assert(plain(LIST_WINDOWS_ID@)) by {
        reveal_strlit(";\n\
    \x20   result.push({\n\
    \x20       id: ");
    }
    assert(plain(LIST_WINDOWS_FIELDS@)) by {
        reveal_strlit(",\n\
    \x20       title: w.caption,\n\
    \x20       appId: w.resourceClass || w.resourceName || \"\",\n\
    \x20       pid: w.pid,\n\
    \x20       geometry: { x: g.x, y: g.y, width: g.width, height: g.height },\n\
    \x20       frameGeometry: { x: g.x, y: g.y, width: g.width, height: g.height },\n\
    \x20       minimized: w.minimized === true,\n\
    \x20       maximized: (w.maximizeMode === 3),\n\
    \x20       fullscreen: w.fullScreen === true,\n\
    \x20       keepAbove: w.keepAbove === true,\n\
    \x20       desktop: ");
    }
    assert(plain(LIST_WINDOWS_TAIL@)) by {
        reveal_strlit(",\n\
    \x20       stackingOrder: i,\n\
    \x20       windowType: w.windowType,\n\
    \x20       desktopFile: w.desktopFileName || \"\"\n\
    \x20   });\n\
    }\n");
    }
    assert(plain(ACTIVE_WINDOW_HEAD@)) by {
        reveal_strlit("var w = workspace.activeWindow;\n\
    var result = null;\n\
    if (w) { result = { id: ");
    }
    assert(plain(ACTIVE_WINDOW_TAIL@)) by {
        reveal_strlit(", title: w.caption,\n\
    \x20   appId: w.resourceClass || w.resourceName || \"\", pid: w.pid }; }\n");
    }
    assert(plain(ELSE@)) by {
        reveal_strlit("\n\
    } else { ");
    }
    assert(plain(END@)) by {
        reveal_strlit("\n\
    }");
    }
    assert(plain(FOCUS@)) by {
        reveal_strlit("if (w) { workspace.activeWindow = w;\n\
    \x20   ");
    }
    assert(plain(MOVE_HEAD@)) by {
        reveal_strlit("if (w) {\n\
    \x20   var g = ");
    }
    assert(plain(CLOSE@)) by {
        reveal_strlit("if (w) { w.closeWindow();\n\
    \x20   ");
    }
    assert(plain(LIST_WORKSPACES_V6@)) by {
        reveal_strlit("var result = [];\n\
    var dts = workspace.desktops;\n\
    for (var i = 0; i < dts.length; i++) {\n\
    \x20   var d = dts[i];\n\
    \x20   result.push({ id: String(d.id), name: d.name || (\"Desktop \" + (i + 1)),\n\
    \x20           number: i + 1, isActive: false });\n\
    }\n\
    var cur = workspace.currentDesktop;\n\
    for (var j = 0; j < result.length; j++) { if (String(cur.id) === result[j].id) { result[j].isActive = true; } }\n");
    }
    assert(plain(LIST_WORKSPACES_V5@)) by {
        reveal_strlit("var n = workspace.desktops;\n\
    var result = [];\n\
    for (var k = 1; k <= n; k++) {\n\
    \x20   result.push({ id: String(k), name: \"Desktop \" + k, number: k,\n\
    \x20           isActive: (workspace.currentDesktop === k) });\n\
    }\n");
    }
    assert(plain(SWITCH_V5_TAIL@)) by {
        reveal_strlit("\n\
    } else {\n\
    \x20   workspace.currentDesktop = n;\n\
    \x20   ");
    }
    assert(plain(LIST_MONITORS@)) by {
        reveal_strlit("var screens = workspace.screens;\n\
    var result = [];\n\
    for (var m = 0; m < screens.length; m++) {\n\
    \x20   var s = screens[m];\n\
    \x20   result.push({ id: s.name, name: s.name,\n\
    \x20           geometry: { x: s.geometry.x, y: s.geometry.y,\n\
    \x20                       width: s.geometry.width, height: s.geometry.height },\n\
    \x20           scale: s.scale, isPrimary: (m === 0) });\n\
    }\n");
    }
    assert(plain(EVENT_MONITOR_HEAD@)) by {
        reveal_strlit("function __push(payload) {\n");
    }
    assert(plain(EVENT_MONITOR_TAIL@)) by {
        reveal_strlit("\n\
    }\n\
    function __wid(w) {\n\
    \x20   return w.internalId !== undefined ? w.internalId.toString() : String(w.id);\n\
    }\n\
    workspace.windowAdded.connect(function(w) { __push({ event: \"windowOpened\", id: __wid(w) }); });\n\
    workspace.windowRemoved.connect(function(w) { __push({ event: \"windowClosed\", id: __wid(w) }); });\n\
    workspace.activeWindowChanged.connect(function() {\n\
    \x20   var w = workspace.activeWindow;\n\
    \x20   if (w) __push({ event: \"windowFocused\", id: __wid(w) });\n\
    });\n");
    }
    assert(plain(SUCCESS@)) by {
        reveal_strlit("{ success: true }");
    }
    assert(plain(NO_WINDOW@)) by {
        reveal_strlit("{ success: false, error: \"Window not found\" }");
    }
    assert(plain(NO_WORKSPACE@)) by {
        reveal_strlit("{ success: false, error: \"Workspace not found\" }");
    }
    assert(plain(NO_WINDOW_OR_WORKSPACE@)) by {
        reveal_strlit("{ success: false, error: \"Window or workspace not found\" }");
    }
    assert(plain(RESPONSE_SERVICE@)) by {
        reveal_strlit("com.agent_shell.Response");
    }
    assert(plain(RESPONSE_PATH@)) by {
        reveal_strlit("/com/agent_shell/response");
    }
    assert(plain(RESPONSE_METHOD@)) by {
        reveal_strlit("sendResult");
    }
    assert(plain(REQ_ID_TOKEN@)) by {
        reveal_strlit("__AGENT_SHELL_REQ_ID__");
    }
}

/// The texts between placeholders.
proof fn lemma_plain_texts()
    ensures
        plain(" === "@),
        plain("; });\n"@),
        plain(";\n    w.frameGeometry = { x: "@),
        plain(", y: "@),
        plain(", width: g.width, height: g.height };\n    "@),
        plain(";\n    w.frameGeometry = { x: g.x, y: g.y, width: "@),
        plain(", height: "@),
        plain(" };\n    "@),
        plain("if (w) {\n    w.frameGeometry = { x: "@),
        plain(", width: "@),
        plain("if (w) { w.minimized = ("@),
        plain(" === 1);\n    "@),
        plain("if (w) {\n    if ("@),
        plain("; });\nif (w && d) { w.desktops = [d];\n    "@),
        plain("if (w) { w.desktop = parseInt("@),
        plain(", 10);\n    "@),
        plain("; });\nif (d) { workspace.currentDesktop = d;\n    "@),
        plain("var n = parseInt("@),
        plain(", 10);\nif (isNaN(n) || n < 1 || n > workspace.desktops) { "@),
        plain("var d = workspace.desktops.find(function(d) { return String(d.id) === "@),
        plain(" === 1) { if (w.setMaximize !== undefined) { w.setMaximize(true, true); } else { w.maximizeMode = 3; } }\n\
    \x20   else { if (w.setMaximize !== undefined) { w.setMaximize(false, false); } else { w.maximizeMode = 0; } }\n\
    \x20   "@),
{
    assert(plain(" === "@)) by {
        reveal_strlit(" === ");
    }
    assert(plain("; });\n"@)) by {
        reveal_strlit("; });\n");
    }
    assert(plain(";\n    w.frameGeometry = { x: "@)) by {
        reveal_strlit(";\n    w.frameGeometry = { x: ");
    }
    assert(plain(", y: "@)) by {
        reveal_strlit(", y: ");
    }
    assert(plain(", width: g.width, height: g.height };\n    "@)) by {
        reveal_strlit(", width: g.width, height: g.height };\n    ");
    }
    assert(plain(";\n    w.frameGeometry = { x: g.x, y: g.y, width: "@)) by {
        reveal_strlit(";\n    w.frameGeometry = { x: g.x, y: g.y, width: ");
    }
    assert(plain(", height: "@)) by {
        reveal_strlit(", height: ");
    }
    assert(plain(" };\n    "@)) by {
        reveal_strlit(" };\n    ");
    }
    assert(plain("if (w) {\n    w.frameGeometry = { x: "@)) by {
        reveal_strlit("if (w) {\n    w.frameGeometry = { x: ");
    }
    assert(plain(", width: "@)) by {
        reveal_strlit(", width: ");
    }
    assert(plain("if (w) { w.minimized = ("@)) by {
        reveal_strlit("if (w) { w.minimized = (");
    }
    assert(plain(" === 1);\n    "@)) by {
        reveal_strlit(" === 1);\n    ");
    }
    assert(plain("if (w) {\n    if ("@)) by {
        reveal_strlit("if (w) {\n    if (");
    }
    assert(plain("; });\nif (w && d) { w.desktops = [d];\n    "@)) by {
        reveal_strlit("; });\nif (w && d) { w.desktops = [d];\n    ");
    }
    assert(plain("if (w) { w.desktop = parseInt("@)) by {
        reveal_strlit("if (w) { w.desktop = parseInt(");
    }
    assert(plain(", 10);\n    "@)) by {
        reveal_strlit(", 10);\n    ");
    }
    assert(plain("; });\nif (d) { workspace.currentDesktop = d;\n    "@)) by {
        reveal_strlit("; });\nif (d) { workspace.currentDesktop = d;\n    ");
    }
    assert(plain("var n = parseInt("@)) by {
        reveal_strlit("var n = parseInt(");
    }
    assert(plain(", 10);\nif (isNaN(n) || n < 1 || n > workspace.desktops) { "@)) by {
        reveal_strlit(", 10);\nif (isNaN(n) || n < 1 || n > workspace.desktops) { ");
    }
    assert(plain("var d = workspace.desktops.find(function(d) { return String(d.id) === "@)) by {
        reveal_strlit("var d = workspace.desktops.find(function(d) { return String(d.id) === ");
    }
    assert(plain(" === 1) { if (w.setMaximize !== undefined) { w.setMaximize(true, true); } else { w.maximizeMode = 3; } }\n\
    \x20   else { if (w.setMaximize !== undefined) { w.setMaximize(false, false); } else { w.maximizeMode = 0; } }\n\
    \x20   "@)) by {
        reveal_strlit(" === 1) { if (w.setMaximize !== undefined) { w.setMaximize(true, true); } else { w.maximizeMode = 3; } }\n\
    \x20   else { if (w.setMaximize !== undefined) { w.setMaximize(false, false); } else { w.maximizeMode = 0; } }\n\
    \x20   ");
    }
}

/// The statements that send something hold no percent sign of their own.
proof fn lemma_plain_statements(expr: Seq<char>)
    requires
        plain(expr),
    ensures
        plain(sends_result(expr)),
        plain(pushes_event(expr)),
        plain("result"@),
        plain("payload"@),
{
    broadcast use lemma_plain_add;

    lemma_plain_pieces();
    assert(plain("callDBus(\""@)) by {
        reveal_strlit("callDBus(\"");
    }
    assert(plain("\", \""@)) by {
        reveal_strlit("\", \"");
    }
    assert(plain("\", "@)) by {
        reveal_strlit("\", ");
    }
    assert(plain("JSON.stringify({ req: \""@)) by {
        reveal_strlit("JSON.stringify({ req: \"");
    }
    assert(plain("\", result: "@)) by {
        reveal_strlit("\", result: ");
    }
    assert(plain(" }));"@)) by {
        reveal_strlit(" }));");
    }
    assert(plain("JSON.stringify("@)) by {
        reveal_strlit("JSON.stringify(");
    }
    assert(plain("));"@)) by {
        reveal_strlit("));");
    }
    assert(plain("result"@)) by {
        reveal_strlit("result");
    }
    assert(plain("payload"@)) by {
        reveal_strlit("payload");
    }
    assert(RESPONSE_IFACE@ == RESPONSE_SERVICE@);
    assert(plain(call_response()));
}

/// A layout with one more placeholder in front.
proof fn lemma_one_more(
    first: Seq<char>,
    key: Seq<char>,
    text: Seq<char>,
    rest: Seq<(Seq<char>, Seq<char>)>,
    all: Seq<(Seq<char>, Seq<char>)>,
)
    requires
        all =~= seq![(key, text)] + rest,
        plain(first),
        is_key(key),
        rest.len() > 0 ==> apart(text),
        laid(text, rest).sound(),
    ensures
        laid(first, all).sound(),
        laid(first, all).template() == first + placeholder(key) + laid(text, rest).template(),
{
    let l = laid(first, all);
    assert(all.skip(1) =~= rest);
    assert(l.tail() == laid(text, rest));
}

/// The last text of a layout.
proof fn lemma_last(text: Seq<char>)
    requires
        plain(text),
    ensures
        laid(text, Seq::empty()).sound(),
        laid(text, Seq::empty()).template() == text,
{
}

/// A text that begins with something else than an upper-case letter is no key.
proof fn lemma_apart(text: Seq<char>)
    requires
        text.len() > 0,
        !('A' <= text[0] <= 'Z'),
    ensures
        apart(text),
{
}

/// The names of the placeholders are keys, and they differ.
proof fn lemma_keys()
    ensures
        is_key("ID"@),
        is_key("X"@),
        is_key("Y"@),
        is_key("W"@),
        is_key("H"@),
        is_key("NUM"@),
        is_key("WS"@),
        "ID"@.len() == 2,
        "ID"@[0] == 'I',
        "WS"@.len() == 2,
        "WS"@[0] == 'W',
        "NUM"@.len() == 3,
        "X"@.len() == 1,
        "X"@[0] == 'X',
        "Y"@.len() == 1,
        "Y"@[0] == 'Y',
        "W"@.len() == 1,
        "W"@[0] == 'W',
        "H"@.len() == 1,
        "H"@[0] == 'H',
{
    reveal_strlit("ID");
    reveal_strlit("X");
    reveal_strlit("Y");
    reveal_strlit("W");
    reveal_strlit("H");
    reveal_strlit("NUM");
    reveal_strlit("WS");
}

/// Everything behind the last placeholder of a script on a window.
proof fn lemma_plain_replies(v6: bool, t: ScriptTemplate)
    ensures
        plain(replies(window_failure(v6, t))),
        plain(replies(NO_WORKSPACE@)),
        plain(up_to_id()),
        plain(behind_id()),
        plain(geometry_expr(v6)),
        plain(desktop_expr(v6)),
        behind_id().len() > 0,
        behind_id()[0] == ';',
{
    broadcast use lemma_plain_add;

    lemma_plain_pieces();
    lemma_plain_texts();
    lemma_plain_statements(SUCCESS@);
    lemma_plain_statements(NO_WORKSPACE@);
    lemma_plain_statements(NO_WINDOW@);
    lemma_plain_statements(NO_WINDOW_OR_WORKSPACE@);
    reveal_strlit("; });\n");
}

/// The layout of the script for moving a window.
proof fn lemma_layout_move(v6: bool)
    ensures
        layout(v6, ScriptTemplate::MoveWindow).sound(),
        layout(v6, ScriptTemplate::MoveWindow).template() == template(
            v6,
            ScriptTemplate::MoveWindow,
        ),
{
    broadcast use lemma_plain_add;

    let t = ScriptTemplate::MoveWindow;
    lemma_pieces();
    lemma_plain_pieces();
    lemma_plain_texts();
    lemma_plain_replies(v6, t);
    lemma_keys();
    let done = replies(window_failure(v6, t));
    let whole = template(v6, t);
    let a = behind_id() + MOVE_HEAD@ + geometry_expr(v6)
        + ";\n    w.frameGeometry = { x: "@;
    let b = ", y: "@;
    let c = ", width: g.width, height: g.height };\n    "@ + done;
    reveal_strlit(", y: ");
    lemma_apart(a);
    lemma_apart(b);
    lemma_last(c);
    lemma_one_more(b, "Y"@, c, Seq::empty(), seq![("Y"@, c)]);
    lemma_one_more(a, "X"@, b, seq![("Y"@, c)], seq![("X"@, b), ("Y"@, c)]);
    lemma_one_more(
        up_to_id(),
        "ID"@,
        a,
        seq![("X"@, b), ("Y"@, c)],
        layout(v6, t).rest,
    );
    assert(whole =~= up_to_id() + placeholder("ID"@) + (a + placeholder("X"@) + (b
        + placeholder("Y"@) + c)));
}

/// The layout of the script for resizing a window.
proof fn lemma_layout_resize(v6: bool)
    ensures
        layout(v6, ScriptTemplate::ResizeWindow).sound(),
        layout(v6, ScriptTemplate::ResizeWindow).template() == template(
            v6,
            ScriptTemplate::ResizeWindow,
        ),
{
    broadcast use lemma_plain_add;

    let t = ScriptTemplate::ResizeWindow;
    lemma_pieces();
    lemma_plain_pieces();
    lemma_plain_texts();
    lemma_plain_replies(v6, t);
    lemma_keys();
    let done = replies(window_failure(v6, t));
    let whole = template(v6, t);
    let a = behind_id() + MOVE_HEAD@ + geometry_expr(v6)
        + ";\n    w.frameGeometry = { x: g.x, y: g.y, width: "@;
    let b = ", height: "@;
    let c = " };\n    "@ + done;
    reveal_strlit(", height: ");
    lemma_apart(a);
    lemma_apart(b);
    lemma_last(c);
    lemma_one_more(b, "H"@, c, Seq::empty(), seq![("H"@, c)]);
    lemma_one_more(a, "W"@, b, seq![("H"@, c)], seq![("W"@, b), ("H"@, c)]);
    lemma_one_more(
        up_to_id(),
        "ID"@,
        a,
        seq![("W"@, b), ("H"@, c)],
        layout(v6, t).rest,
    );
    assert(whole =~= up_to_id() + placeholder("ID"@) + (a + placeholder("W"@) + (b
        + placeholder("H"@) + c)));
}

/// The layout of the script for placing a window.
proof fn lemma_layout_set_geometry(v6: bool)
    ensures
        layout(v6, ScriptTemplate::SetWindowGeometry).sound(),
        layout(v6, ScriptTemplate::SetWindowGeometry).template() == template(
            v6,
            ScriptTemplate::SetWindowGeometry,
        ),
{
    broadcast use lemma_plain_add;

    let t = ScriptTemplate::SetWindowGeometry;
    lemma_pieces();
    lemma_plain_pieces();
    lemma_plain_texts();
    lemma_plain_replies(v6, t);
    lemma_keys();
    let done = replies(window_failure(v6, t));
    let whole = template(v6, t);
    let a = behind_id() + "if (w) {\n    w.frameGeometry = { x: "@;
    let b = ", y: "@;
    let c = ", width: "@;
    let d = ", height: "@;
    let e = " };\n    "@ + done;
    reveal_strlit(", y: ");
    reveal_strlit(", width: ");
    reveal_strlit(", height: ");
    lemma_apart(a);
    lemma_apart(b);
    lemma_apart(c);
    lemma_apart(d);
    lemma_last(e);
    let r1 = seq![("H"@, e)];
    let r2 = seq![("W"@, d), ("H"@, e)];
    let r3 = seq![("Y"@, c), ("W"@, d), ("H"@, e)];
    let r4 = seq![("X"@, b), ("Y"@, c), ("W"@, d), ("H"@, e)];
    lemma_one_more(d, "H"@, e, Seq::empty(), r1);
    lemma_one_more(c, "W"@, d, r1, r2);
    lemma_one_more(b, "Y"@, c, r2, r3);
    lemma_one_more(a, "X"@, b, r3, r4);
    lemma_one_more(up_to_id(), "ID"@, a, r4, layout(v6, t).rest);
    assert(whole =~= up_to_id() + placeholder("ID"@) + (a + placeholder("X"@) + (b
        + placeholder("Y"@) + (c + placeholder("W"@) + (d + placeholder("H"@) + e)))));
}

/// The layout of the script for sending a window to a workspace.
proof fn lemma_layout_send_to(v6: bool)
    ensures
        layout(v6, ScriptTemplate::MoveWindowToWorkspace).sound(),
        layout(v6, ScriptTemplate::MoveWindowToWorkspace).template() == template(
            v6,
            ScriptTemplate::MoveWindowToWorkspace,
        ),
{
    broadcast use lemma_plain_add;

    let t = ScriptTemplate::MoveWindowToWorkspace;
    lemma_pieces();
    lemma_plain_pieces();
    lemma_plain_texts();
    lemma_plain_replies(v6, t);
    lemma_keys();
    let done = replies(window_failure(v6, t));
    let whole = template(v6, t);
    let a = if v6 {
        behind_id() + finds_desktop()
    } else {
        behind_id() + "if (w) { w.desktop = parseInt("@
    };
    let b = if v6 {
        "; });\nif (w && d) { w.desktops = [d];\n    "@ + done
    } else {
        ", 10);\n    "@ + done
    };
    lemma_apart(a);
    lemma_last(b);
    lemma_one_more(a, "WS"@, b, Seq::empty(), seq![("WS"@, b)]);
    lemma_one_more(up_to_id(), "ID"@, a, seq![("WS"@, b)], layout(v6, t).rest);
    assert(whole =~= up_to_id() + placeholder("ID"@) + (a + placeholder("WS"@) + b));
}

/// The layout of the script for minimising a window.
proof fn lemma_layout_minimize(v6: bool)
    ensures
        layout(v6, ScriptTemplate::MinimizeWindow).sound(),
        layout(v6, ScriptTemplate::MinimizeWindow).template() == template(
            v6,
            ScriptTemplate::MinimizeWindow,
        ),
{
    broadcast use lemma_plain_add;

    let t = ScriptTemplate::MinimizeWindow;
    lemma_pieces();
    lemma_plain_pieces();
    lemma_plain_texts();
    lemma_plain_replies(v6, t);
    lemma_keys();
    let done = replies(window_failure(v6, t));
    let whole = template(v6, t);
    let a = behind_id() + "if (w) { w.minimized = ("@;
    let b = " === 1);\n    "@ + done;
    lemma_apart(a);
    lemma_last(b);
    lemma_one_more(a, "NUM"@, b, Seq::empty(), seq![("NUM"@, b)]);
    lemma_one_more(up_to_id(), "ID"@, a, seq![("NUM"@, b)], layout(v6, t).rest);
    assert(whole =~= up_to_id() + placeholder("ID"@) + (a + placeholder("NUM"@) + b));
}

/// The layout of the script for maximising a window.
proof fn lemma_layout_maximize(v6: bool)
    ensures
        layout(v6, ScriptTemplate::MaximizeWindow).sound(),
        layout(v6, ScriptTemplate::MaximizeWindow).template() == template(
            v6,
            ScriptTemplate::MaximizeWindow,
        ),
{
    broadcast use lemma_plain_add;

    let t = ScriptTemplate::MaximizeWindow;
    lemma_pieces();
    lemma_plain_pieces();
    lemma_plain_texts();
    lemma_plain_replies(v6, t);
    lemma_keys();
    let done = replies(window_failure(v6, t));
    let whole = template(v6, t);
    let a = behind_id() + "if (w) {\n    if ("@;
    let b = maximizes() + done;
    lemma_apart(a);
    lemma_last(b);
    lemma_one_more(a, "NUM"@, b, Seq::empty(), seq![("NUM"@, b)]);
    lemma_one_more(up_to_id(), "ID"@, a, seq![("NUM"@, b)], layout(v6, t).rest);
    assert(whole =~= up_to_id() + placeholder("ID"@) + (a + placeholder("NUM"@) + b));
}

/// A template is the text of its layout, which is sound.
proof fn lemma_layout(v6: bool, t: ScriptTemplate)
    ensures
        layout(v6, t).sound(),
        layout(v6, t).template() == template(v6, t),
{
    broadcast use lemma_plain_add;

    lemma_pieces();
    lemma_plain_pieces();
    lemma_plain_texts();
    lemma_plain_replies(v6, t);
    lemma_keys();
    let done = replies(window_failure(v6, t));
    let whole = template(v6, t);
    match t {
        ScriptTemplate::FocusWindow => {
            let a = behind_id() + FOCUS@ + done;
            lemma_last(a);
            lemma_one_more(up_to_id(), "ID"@, a, Seq::empty(), layout(v6, t).rest);
            assert(whole =~= up_to_id() + placeholder("ID"@) + a);
        },
        ScriptTemplate::CloseWindow => {
            let a = behind_id() + CLOSE@ + done;
            lemma_last(a);
            lemma_one_more(up_to_id(), "ID"@, a, Seq::empty(), layout(v6, t).rest);
            assert(whole =~= up_to_id() + placeholder("ID"@) + a);
        },
        ScriptTemplate::MoveWindow => {
            lemma_layout_move(v6);
        },
        ScriptTemplate::ResizeWindow => {
            lemma_layout_resize(v6);
        },
        ScriptTemplate::SetWindowGeometry => {
            lemma_layout_set_geometry(v6);
        },
        ScriptTemplate::MinimizeWindow => {
            lemma_layout_minimize(v6);
        },
        ScriptTemplate::MaximizeWindow => {
            lemma_layout_maximize(v6);
        },
        ScriptTemplate::MoveWindowToWorkspace => {
            lemma_layout_send_to(v6);
        },
        ScriptTemplate::SwitchWorkspace => {
            lemma_plain_statements(SUCCESS@);
            lemma_plain_statements(NO_WORKSPACE@);
            let a = layout(v6, t).first;
            let b = layout(v6, t).rest[0].1;
            lemma_last(b);
            lemma_one_more(a, "WS"@, b, Seq::empty(), layout(v6, t).rest);
            assert(whole =~= a + placeholder("WS"@) + b);
        },
        _ => {
            lemma_plain_statements(SUCCESS@);
            lemma_plain_statements("result"@);
            lemma_plain_statements("payload"@);
            lemma_last(whole);
        },
    }
}

/// Text without percent signs becomes a literal without percent signs.
proof fn lemma_plain_literal(s: Seq<char>)
    requires
        plain(s),
    ensures
        plain(js_literal(s)),
{
    broadcast use lemma_plain_add;

    lemma_plain_escaped(s);
    assert(plain(seq!['"']));
}

/// The same, between the quotation marks.
proof fn lemma_plain_escaped(s: Seq<char>)
    requires
        plain(s),
    ensures
        plain(escaped(s)),
    decreases s.len(),
{
    broadcast use lemma_plain_add;

    if s.len() > 0 {
        assert(s =~= s.drop_last() + seq![s.last()]);
        lemma_plain_escaped(s.drop_last());
        let c = s.last();
        assert(s.contains(c));
        assert forall|i: int| 0 <= i < escape(c).len() implies escape(c)[i] != '%' by {
            if (c as u32) < 0x20 {
                assert(hex_digit(c as u32 / 16) != '%');
                assert(hex_digit(c as u32 % 16) != '%');
            }
        }
        assert(plain(escape(c)));
    }
}

/// Numbers are written without percent signs.
proof fn lemma_plain_number(n: JsonNumber)
    requires
        n.integer() is Some,
    ensures
        plain(n.text()),
{
    let m = match n {
        JsonNumber::Pos(u) => u as nat,
        JsonNumber::Neg(i) => if i < 0 {
            (-i) as nat
        } else {
            i as nat
        },
        JsonNumber::Float(_) => 0,
    };
    lemma_dec_is_number(m);
    assert forall|i: int| 0 <= i < n.text().len() implies n.text()[i] != '%' by {
        if n.text() == dec(m) {
            assert(is_digit(dec(m)[i]));
        } else if i > 0 {
            assert(n.text()[i] == dec(m)[i - 1]);
        }
    }
}

/// The argument that is found under a key is the one that was given.
proof fn lemma_value(args: Seq<(&str, Json)>, i: int)
    requires
        writable(args),
        0 <= i < args.len(),
    ensures
        value(args, args[i].0@) == argument(args[i].0@, args[i].1)->Ok_0,
    decreases args.len(),
{
    if i > 0 {
        let more = args.skip(1);
        assert(args[0].0@ != args[i].0@);
        assert(forall|j: int| 0 <= j < more.len() ==> #[trigger] more[j] == args[j + 1]);
        assert(writable(more)) by {
            assert forall|a: int, b: int| 0 <= a < b < more.len() implies (#[trigger] more[a]).0@
                != (#[trigger] more[b]).0@ by {
                assert(args[a + 1].0@ != args[b + 1].0@);
            }
            assert forall|a: int| 0 <= a < more.len() implies {
                &&& argument((#[trigger] more[a]).0@, more[a].1) matches Ok(by)
                &&& plain(by)
            } by {
                assert(argument(args[a + 1].0@, args[a + 1].1) is Ok);
            }
        }
        lemma_value(more, i - 1);
    }
}

/// The arguments of a call are those that its template has placeholders for.
proof fn lemma_arguments_fit(v6: bool, call: ScriptCall, args: Seq<(&str, Json)>)
    requires
        arg_views(args) == call.passes(),
    ensures
        args.len() == layout(v6, call.uses()).rest.len(),
        forall|i: int|
            0 <= i < args.len() ==> (#[trigger] args[i]).0@ == layout(v6, call.uses()).rest[i].0,
        forall|i: int, j: int|
            0 <= i < j < args.len() ==> (#[trigger] args[i]).0@ != (#[trigger] args[j]).0@,
{
    lemma_keys();
    let l = layout(v6, call.uses());
    let passed = call.passes();
    assert(args.len() == passed.len());
    assert forall|i: int| 0 <= i < args.len() implies (#[trigger] args[i]).0@ == passed[i].0 by {
        assert(arg_views(args)[i].0 == args[i].0@);
    }
}

/// Whatever is asked of a window or a workspace can be asked: the script of the
/// call is its template with each argument in its place, as long as no identifier
/// holds a percent sign. Identifiers stand in it as the literals that denote them.
pub proof fn law_call_is_rendered(v6: bool, call: ScriptCall, args: Seq<(&str, Json)>)
    requires
        arg_views(args) == call.passes(),
        forall|i: int|
            0 <= i < args.len() ==> ((#[trigger] args[i]).1 matches Json::Str(s) ==> plain(s@)),
    ensures
        filled(template(v6, call.uses()), args) == Ok::<Seq<char>, KWinErrorView>(
            layout(v6, call.uses()).script(args),
        ),
        forall|i: int|
            0 <= i < args.len() ==> contains(
                layout(v6, call.uses()).script(args),
                argument((#[trigger] args[i]).0@, args[i].1)->Ok_0,
            ),
        forall|i: int|
            0 <= i < args.len() ==> value(args, (#[trigger] args[i]).0@) == argument(
                args[i].0@,
                args[i].1,
            )->Ok_0,
{
    let l = layout(v6, call.uses());
    lemma_layout(v6, call.uses());
    lemma_arguments_fit(v6, call, args);
    assert(writable(args)) by {
        assert forall|i: int| 0 <= i < args.len() implies {
            &&& argument((#[trigger] args[i]).0@, args[i].1) matches Ok(by)
            &&& plain(by)
        } by {
            assert(arg_views(args)[i].1 == arg_view(args[i].1));
            match args[i].1 {
                Json::Str(s) => {
                    lemma_plain_literal(s@);
                },
                Json::Number(n) => {
                    lemma_plain_number(n);
                },
                _ => {},
            }
        }
    }
    assert forall|k: Seq<char>| #[trigger] l.has(k) <==> given(args, k) by {
        if l.has(k) {
            let i = choose|i: int| 0 <= i < l.rest.len() && (#[trigger] l.rest[i]).0 == k;
            assert(args[i].0@ == k);
        }
        if given(args, k) {
            let i = choose|i: int| 0 <= i < args.len() && (#[trigger] args[i]).0@ == k;
            assert(l.rest[i].0 == k);
        }
    }
    law_filling_in_puts_arguments_in_place(l, args);
    assert forall|i: int| 0 <= i < args.len() implies contains(
        l.script(args),
        argument((#[trigger] args[i]).0@, args[i].1)->Ok_0,
    ) by {
        assert(l.rest[i].0 == args[i].0@);
        law_argument_is_in_the_script(l, args, args[i].0@);
        lemma_value(args, i);
    }
    assert forall|i: int| 0 <= i < args.len() implies value(args, (#[trigger] args[i]).0@)
        == argument(args[i].0@, args[i].1)->Ok_0 by {
        lemma_value(args, i);
    }
}

/// Whatever is asked without arguments is its own script.
pub proof fn law_plain_query_is_rendered(v6: bool, t: ScriptTemplate)
    requires
        t == ScriptTemplate::ListWindows || t == ScriptTemplate::GetActiveWindow || t
            == ScriptTemplate::ListWorkspaces || t == ScriptTemplate::ListMonitors || t
            == ScriptTemplate::EventMonitor,
    ensures
        filled(template(v6, t), Seq::empty()) == Ok::<Seq<char>, KWinErrorView>(template(v6, t)),
{
    lemma_layout(v6, t);
}

} // verus!
