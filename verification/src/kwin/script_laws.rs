//! The scripts of calls, written out in full: what each call has KWin do, for both
//! generations of its scripting interface.

use vstd::prelude::*;

use crate::json::Json;
use crate::kwin::compositor::{arg_view, arg_views, ArgView, ScriptCall};
use crate::kwin::error::KWinErrorView;
use crate::kwin::layout::{plain, value, Layout};
use crate::kwin::rendering::{law_call_is_rendered, layout};
use crate::kwin::scripts::{
    argument, escape, escaped, filled, hex_digit, js_literal, template, ScriptTemplate,
};
use crate::text::{contains, dec_int, occurs_at};
use crate::types::Rect;

verus! {

/// The statement that sends a result back.
pub open spec fn sent(expr: Seq<char>) -> Seq<char> {
    "callDBus(\""@ + "com.agent_shell.Response"@ + "\", \""@ + "/com/agent_shell/response"@
        + "\", \""@ + "com.agent_shell.Response"@ + "\", \""@ + "sendResult"@ + "\", "@
        + "JSON.stringify({ req: \""@ + "__AGENT_SHELL_REQ_ID__"@ + "\", result: "@ + expr
        + " }));"@
}

/// The end of a script: the result on success, and the one on failure.
pub open spec fn reported(failure: Seq<char>) -> Seq<char> {
    sent("{ success: true }"@) + "\n} else { "@ + sent(failure) + "\n}"@
}

/// What is sent where there is no such window.
pub open spec fn no_window() -> Seq<char> {
    "{ success: false, error: \"Window not found\" }"@
}

/// The search for a window, up to its identifier.
pub open spec fn search() -> Seq<char> {
    "var w = workspace.windowList().find(function(w) { return "@
        + "(w.internalId !== undefined ? w.internalId.toString() : String(w.id))"@ + " === "@
}

/// The search for a virtual desktop, up to its identifier.
pub open spec fn desktop_search() -> Seq<char> {
    "var d = workspace.desktops.find(function(d) { return String(d.id) === "@
}

/// What comes of a call, with the arguments as it passes them.
pub open spec fn rendered(v6: bool, call: ScriptCall, args: Seq<(&str, Json)>) -> Result<
    Seq<char>,
    KWinErrorView,
> {
    filled(template(v6, call.uses()), args)
}

/// The argument of a call at a place, as it stands in the script.
proof fn lemma_argument(v6: bool, call: ScriptCall, args: Seq<(&str, Json)>, i: int)
    requires
        arg_views(args) == call.passes(),
        0 <= i < args.len(),
    ensures
        args[i].0@ == call.passes()[i].0,
        call.passes()[i].1 matches ArgView::Text(t) ==> argument(args[i].0@, args[i].1) == Ok::<
            Seq<char>,
            KWinErrorView,
        >(js_literal(t)),
        call.passes()[i].1 matches ArgView::Number(n) ==> argument(args[i].0@, args[i].1) == Ok::<
            Seq<char>,
            KWinErrorView,
        >(dec_int(n)),
        args[i].1 matches Json::Str(s) ==> call.passes()[i].1 == ArgView::Text(s@),
{
    assert(arg_views(args)[i] == (args[i].0@, arg_view(args[i].1)));
}

/// The texts that a call passes hold no percent sign.
pub open spec fn plain_texts(call: ScriptCall) -> bool {
    forall|i: int, t: Seq<char>|
        0 <= i < call.passes().len() && (#[trigger] call.passes()[i]).1 == ArgView::Text(t)
            ==> #[trigger] plain(t)
}

proof fn lemma_rendered(v6: bool, call: ScriptCall, args: Seq<(&str, Json)>)
    requires
        arg_views(args) == call.passes(),
        plain_texts(call),
    ensures
        rendered(v6, call, args) == Ok::<Seq<char>, KWinErrorView>(
            layout(v6, call.uses()).script(args),
        ),
        args.len() == call.passes().len(),
        forall|i: int|
            #![trigger call.passes()[i]]
            0 <= i < args.len() ==> {
                &&& call.passes()[i].1 matches ArgView::Text(t) ==> value(
                    args,
                    call.passes()[i].0,
                ) == js_literal(t)
                &&& call.passes()[i].1 matches ArgView::Number(n) ==> value(
                    args,
                    call.passes()[i].0,
                ) == dec_int(n)
            },
{
    assert(args.len() == arg_views(args).len());
    assert forall|i: int| 0 <= i < args.len() implies ((#[trigger] args[i]).1 matches Json::Str(s)
        ==> plain(s@)) by {
        lemma_argument(v6, call, args, i);
        if let Json::Str(s) = args[i].1 {
            assert(call.passes()[i].1 == ArgView::Text(s@));
        }
    }
    law_call_is_rendered(v6, call, args);
    assert forall|i: int|
        #![trigger call.passes()[i]]
        0 <= i < args.len() implies {
        &&& call.passes()[i].1 matches ArgView::Text(t) ==> value(args, call.passes()[i].0)
            == js_literal(t)
        &&& call.passes()[i].1 matches ArgView::Number(n) ==> value(args, call.passes()[i].0)
            == dec_int(n)
    } by {
        lemma_argument(v6, call, args, i);
        assert(value(args, args[i].0@) == argument(args[i].0@, args[i].1)->Ok_0);
    }
}

/// A layout with one placeholder, with two and with three of them: what comes of it.
proof fn lemma_script(l: Layout, args: Seq<(&str, Json)>)
    ensures
        l.rest.len() == 1 ==> l.script(args) == l.first + value(args, l.rest[0].0) + l.rest[0].1,
        l.rest.len() == 2 ==> l.script(args) == l.first + value(args, l.rest[0].0) + (l.rest[0].1
            + value(args, l.rest[1].0) + l.rest[1].1),
        l.rest.len() == 3 ==> l.script(args) == l.first + value(args, l.rest[0].0) + (l.rest[0].1
            + value(args, l.rest[1].0) + (l.rest[1].1 + value(args, l.rest[2].0) + l.rest[2].1)),
        l.rest.len() == 5 ==> l.script(args) == l.first + value(args, l.rest[0].0) + (l.rest[0].1
            + value(args, l.rest[1].0) + (l.rest[1].1 + value(args, l.rest[2].0) + (l.rest[2].1
            + value(args, l.rest[3].0) + (l.rest[3].1 + value(args, l.rest[4].0)
            + l.rest[4].1)))),
{
    reveal_with_fuel(Layout::script, 6);
    let r = l.rest;
    if r.len() >= 2 {
        assert(r.skip(1)[0] == r[1]);
    }
    if r.len() >= 3 {
        assert(r.skip(1).skip(1)[0] == r[2]);
    }
    if r.len() >= 4 {
        assert(r.skip(1).skip(1).skip(1)[0] == r[3]);
    }
    if r.len() >= 5 {
        assert(r.skip(1).skip(1).skip(1).skip(1)[0] == r[4]);
    }
}

/// A focus call searches for the window with the identifier and makes it the active
/// one; a close call closes it.
pub proof fn law_focus_and_close_scripts(v6: bool, id: String, args: Seq<(&str, Json)>)
    requires
        plain(id@),
    ensures
        arg_views(args) == (ScriptCall::Focus { id }).passes() ==> rendered(
            v6,
            ScriptCall::Focus { id },
            args,
        ) == Ok::<Seq<char>, KWinErrorView>(
            search() + js_literal(id@) + ("; });\n"@ + "if (w) { workspace.activeWindow = w;\n    "@
                + reported(no_window())),
        ),
        arg_views(args) == (ScriptCall::Close { id }).passes() ==> rendered(
            v6,
            ScriptCall::Close { id },
            args,
        ) == Ok::<Seq<char>, KWinErrorView>(
            search() + js_literal(id@) + ("; });\n"@ + "if (w) { w.closeWindow();\n    "@
                + reported(no_window())),
        ),
{
    let focus = ScriptCall::Focus { id };
    let close = ScriptCall::Close { id };
    if arg_views(args) == focus.passes() {
        lemma_rendered(v6, focus, args);
        assert(focus.passes()[0].0 == "ID"@);
        lemma_script(layout(v6, focus.uses()), args);
    }
    if arg_views(args) == close.passes() {
        lemma_rendered(v6, close, args);
        assert(close.passes()[0].0 == "ID"@);
        lemma_script(layout(v6, close.uses()), args);
    }
}

/// The script of a minimise call, up to the assignment.
pub open spec fn up_to_assignment(id: Seq<char>) -> Seq<char> {
    search() + js_literal(id) + "; });\nif (w) { "@
}

/// A minimise call searches for the window and assigns `(1 === 1)` to its minimised
/// state where it is to be minimised, and `(0 === 1)` where it is to be restored.
pub proof fn law_minimize_script_assigns_the_state(
    v6: bool,
    id: String,
    on: bool,
    args: Seq<(&str, Json)>,
)
    requires
        plain(id@),
        arg_views(args) == (ScriptCall::Minimize { id, on }).passes(),
    ensures
        rendered(v6, ScriptCall::Minimize { id, on }, args) == Ok::<Seq<char>, KWinErrorView>(
            up_to_assignment(id@) + (if on {
                "w.minimized = (1 === 1)"@
            } else {
                "w.minimized = (0 === 1)"@
            }) + (";\n    "@ + reported(no_window())),
        ),
{
    let call = ScriptCall::Minimize { id, on };
    lemma_rendered(v6, call, args);
    assert(call.passes()[0].0 == "ID"@);
    assert(call.passes()[1].0 == "NUM"@);
    lemma_script(layout(v6, call.uses()), args);
    let num: int = if on {
        1
    } else {
        0
    };
    assert(call.passes()[1].1 == ArgView::Number(num));
    lemma_assignment(on);
    let done = reported(no_window());
    let lit = js_literal(id@);
    let a = "; });\n"@ + "if (w) { w.minimized = ("@;
    let b = " === 1);\n    "@;
    let c = "; });\nif (w) { "@;
    let d = if on {
        "w.minimized = (1 === 1)"@
    } else {
        "w.minimized = (0 === 1)"@
    };
    let e = ";\n    "@;
    assert(a + dec_int(num) + b == c + d + e);
    assert(a + dec_int(num) + (b + done) == a + dec_int(num) + b + done);
    assert(c + d + e + done == c + (d + (e + done)));
    assert(search() + lit + (c + (d + (e + done))) == search() + lit + c + d + (e + done));
}

proof fn lemma_assignment(on: bool)
    ensures
        "; });\n"@ + "if (w) { w.minimized = ("@ + dec_int(
            if on {
                1
            } else {
                0
            },
        ) + " === 1);\n    "@ == "; });\nif (w) { "@ + (if on {
            "w.minimized = (1 === 1)"@
        } else {
            "w.minimized = (0 === 1)"@
        }) + ";\n    "@,
{
    reveal_strlit("; });\n");
    reveal_strlit("if (w) { w.minimized = (");
    reveal_strlit(" === 1);\n    ");
    reveal_strlit("; });\nif (w) { ");
    reveal_strlit("w.minimized = (1 === 1)");
    reveal_strlit("w.minimized = (0 === 1)");
    reveal_strlit(";\n    ");
    assert(dec_int(1) =~= seq!['1']);
    assert(dec_int(0) =~= seq!['0']);
    if on {
        assert("; });\n"@ + "if (w) { w.minimized = ("@ + seq!['1'] + " === 1);\n    "@
            =~= "; });\nif (w) { "@ + "w.minimized = (1 === 1)"@ + ";\n    "@);
    } else {
        assert("; });\n"@ + "if (w) { w.minimized = ("@ + seq!['0'] + " === 1);\n    "@
            =~= "; });\nif (w) { "@ + "w.minimized = (0 === 1)"@ + ";\n    "@);
    }
}

/// A letter that only the assignment of a minimise script holds.
spec fn without_z(s: Seq<char>) -> bool {
    !s.contains('z')
}

proof fn lemma_z_add(a: Seq<char>, b: Seq<char>)
    ensures
        without_z(a + b) <==> without_z(a) && without_z(b),
{
    let s = a + b;
    if s.contains('z') {
        let k = choose|k: int| 0 <= k < s.len() && s[k] == 'z';
        if k < a.len() {
            assert(a[k] == 'z');
        } else {
            assert(b[k - a.len()] == 'z');
        }
    }
    if a.contains('z') {
        let k = choose|k: int| 0 <= k < a.len() && a[k] == 'z';
        assert(s[k] == 'z');
    }
    if b.contains('z') {
        let k = choose|k: int| 0 <= k < b.len() && b[k] == 'z';
        assert(s[a.len() + k] == 'z');
    }
}

proof fn lemma_z_literal(s: Seq<char>)
    requires
        without_z(s),
    ensures
        without_z(js_literal(s)),
{
    lemma_z_escaped(s);
    assert(without_z(seq!['"']));
    lemma_z_add(seq!['"'], escaped(s));
    lemma_z_add(seq!['"'] + escaped(s), seq!['"']);
}

proof fn lemma_z_escaped(s: Seq<char>)
    requires
        without_z(s),
    ensures
        without_z(escaped(s)),
    decreases s.len(),
{
    if s.len() > 0 {
        assert(s =~= s.drop_last() + seq![s.last()]);
        lemma_z_add(s.drop_last(), seq![s.last()]);
        lemma_z_escaped(s.drop_last());
        let c = s.last();
        assert(seq![c][0] == c);
        assert(c != 'z');
        assert(without_z(escape(c))) by {
            if escape(c).contains('z') {
                let k = choose|k: int| 0 <= k < escape(c).len() && escape(c)[k] == 'z';
                assert((c as u32) < 0x20 ==> hex_digit(c as u32 / 16) != 'z' && hex_digit(
                    c as u32 % 16,
                ) != 'z');
            }
        }
        lemma_z_add(escaped(s.drop_last()), escape(c));
    }
}

proof fn lemma_z_texts()
    ensures
        without_z(search()),
        without_z("; });\nif (w) { "@),
        without_z(";\n    "@),
        without_z("\n} else { "@),
        without_z("\n}"@),
        without_z("{ success: true }"@),
        without_z(no_window()),
{
    reveal_strlit("var w = workspace.windowList().find(function(w) { return ");
    reveal_strlit("(w.internalId !== undefined ? w.internalId.toString() : String(w.id))");
    reveal_strlit(" === ");
    reveal_strlit("; });\nif (w) { ");
    reveal_strlit(";\n    ");
    reveal_strlit("\n} else { ");
    reveal_strlit("\n}");
    reveal_strlit("{ success: true }");
    reveal_strlit("{ success: false, error: \"Window not found\" }");
    lemma_z_add(
        "var w = workspace.windowList().find(function(w) { return "@,
        "(w.internalId !== undefined ? w.internalId.toString() : String(w.id))"@,
    );
    lemma_z_add(
        "var w = workspace.windowList().find(function(w) { return "@
            + "(w.internalId !== undefined ? w.internalId.toString() : String(w.id))"@,
        " === "@,
    );
}

proof fn lemma_z_sent(expr: Seq<char>)
    requires
        without_z(expr),
    ensures
        without_z(sent(expr)),
{
    reveal_strlit("callDBus(\"");
    reveal_strlit("com.agent_shell.Response");
    reveal_strlit("\", \"");
    reveal_strlit("/com/agent_shell/response");
    reveal_strlit("sendResult");
    reveal_strlit("\", ");
    reveal_strlit("JSON.stringify({ req: \"");
    reveal_strlit("__AGENT_SHELL_REQ_ID__");
    reveal_strlit("\", result: ");
    reveal_strlit(" }));");
    let p1 = "callDBus(\""@ + "com.agent_shell.Response"@;
    let p2 = p1 + "\", \""@;
    let p3 = p2 + "/com/agent_shell/response"@;
    let p4 = p3 + "\", \""@;
    let p5 = p4 + "com.agent_shell.Response"@;
    let p6 = p5 + "\", \""@;
    let p7 = p6 + "sendResult"@;
    let p8 = p7 + "\", "@;
    let p9 = p8 + "JSON.stringify({ req: \""@;
    let p10 = p9 + "__AGENT_SHELL_REQ_ID__"@;
    let p11 = p10 + "\", result: "@;
    lemma_z_add("callDBus(\""@, "com.agent_shell.Response"@);
    lemma_z_add(p1, "\", \""@);
    lemma_z_add(p2, "/com/agent_shell/response"@);
    lemma_z_add(p3, "\", \""@);
    lemma_z_add(p4, "com.agent_shell.Response"@);
    lemma_z_add(p5, "\", \""@);
    lemma_z_add(p6, "sendResult"@);
    lemma_z_add(p7, "\", "@);
    lemma_z_add(p8, "JSON.stringify({ req: \""@);
    lemma_z_add(p9, "__AGENT_SHELL_REQ_ID__"@);
    lemma_z_add(p10, "\", result: "@);
    lemma_z_add(p11, expr);
    lemma_z_add(p11 + expr, " }));"@);
}

proof fn lemma_z_reported()
    ensures
        without_z(reported(no_window())),
{
    lemma_z_texts();
    lemma_z_sent("{ success: true }"@);
    lemma_z_sent(no_window());
    lemma_z_add(sent("{ success: true }"@), "\n} else { "@);
    lemma_z_add(sent("{ success: true }"@) + "\n} else { "@, sent(no_window()));
    lemma_z_add(sent("{ success: true }"@) + "\n} else { "@ + sent(no_window()), "\n}"@);
}

/// In a text with one assignment, and no other `z`, only that assignment is found.
proof fn lemma_only_assignment(a: Seq<char>, mid: Seq<char>, b: Seq<char>, t: Seq<char>)
    requires
        without_z(a),
        without_z(b),
        mid.len() == 23,
        t.len() == 23,
        mid[8] == 'z',
        t[8] == 'z',
        forall|k: int| 0 <= k < 23 && k != 8 ==> mid[k] != 'z',
    ensures
        contains(a + mid + b, t) <==> mid == t,
{
    let s = a + mid + b;
    if contains(s, t) {
        let i = choose|i: int| occurs_at(s, t, i);
        assert(s.subrange(i, i + 23)[8] == t[8]);
        assert(s[i + 8] == 'z');
        let p = i + 8;
        if p < a.len() {
            assert(a[p] == 'z');
        } else if p >= a.len() + 23 {
            assert(b[p - a.len() - 23] == 'z');
        } else {
            assert(mid[p - a.len()] == 'z');
        }
        assert(i == a.len());
        assert forall|k: int| 0 <= k < 23 implies mid[k] == t[k] by {
            assert(s.subrange(i, i + 23)[k] == t[k]);
            assert(s[i + k] == mid[k]);
        }
        assert(mid =~= t);
    }
    if mid == t {
        assert(s.subrange(a.len() as int, a.len() as int + 23) =~= t);
        assert(occurs_at(s, t, a.len() as int));
    }
}

/// The script of a minimise call holds the assignment of `(1 === 1)` if and only if
/// the window is to be minimised, and that of `(0 === 1)` if and only if it is to be
/// restored. An identifier that spells out such an assignment itself is left aside:
/// the identifiers of windows hold no `z`.
pub proof fn law_minimize_script_holds_its_assignment(
    v6: bool,
    id: String,
    on: bool,
    args: Seq<(&str, Json)>,
)
    requires
        plain(id@),
        !id@.contains('z'),
        arg_views(args) == (ScriptCall::Minimize { id, on }).passes(),
    ensures
        rendered(v6, ScriptCall::Minimize { id, on }, args) matches Ok(script) && (contains(
            script,
            "w.minimized = (1 === 1)"@,
        ) <==> on) && (contains(script, "w.minimized = (0 === 1)"@) <==> !on),
{
    law_minimize_script_assigns_the_state(v6, id, on, args);
    lemma_z_texts();
    lemma_z_literal(id@);
    lemma_z_reported();
    lemma_z_add(search(), js_literal(id@));
    lemma_z_add(search() + js_literal(id@), "; });\nif (w) { "@);
    lemma_z_add(";\n    "@, reported(no_window()));
    let a = up_to_assignment(id@);
    let b = ";\n    "@ + reported(no_window());
    let yes = "w.minimized = (1 === 1)"@;
    let no = "w.minimized = (0 === 1)"@;
    reveal_strlit("w.minimized = (1 === 1)");
    reveal_strlit("w.minimized = (0 === 1)");
    assert(yes[15] != no[15]);
    let mid = if on {
        yes
    } else {
        no
    };
    lemma_only_assignment(a, mid, b, yes);
    lemma_only_assignment(a, mid, b, no);
}

/// A maximise call searches for the window and takes the branch that maximises it.
pub proof fn law_maximize_script_takes_the_branch(v6: bool, id: String, args: Seq<(&str, Json)>)
    requires
        plain(id@),
        arg_views(args) == (ScriptCall::Maximize { id }).passes(),
    ensures
        rendered(v6, ScriptCall::Maximize { id }, args) == Ok::<Seq<char>, KWinErrorView>(
            search() + js_literal(id@) + ("; });\n"@ + "if (w) {\n    if ("@ + "1"@
                + (" === 1) { if (w.setMaximize !== undefined) { w.setMaximize(true, true); } else { w.maximizeMode = 3; } }\n\
    \x20   else { if (w.setMaximize !== undefined) { w.setMaximize(false, false); } else { w.maximizeMode = 0; } }\n\
    \x20   "@
                + reported(no_window()))),
        ),
{
    let call = ScriptCall::Maximize { id };
    lemma_rendered(v6, call, args);
    assert(call.passes()[0].0 == "ID"@);
    assert(call.passes()[1].0 == "NUM"@);
    assert(call.passes()[1].1 == ArgView::Number(1));
    lemma_script(layout(v6, call.uses()), args);
    reveal_strlit("1");
    assert(dec_int(1) =~= "1"@);
}

/// The geometry of a window, as a script reads it.
pub open spec fn geometry_of_window(v6: bool) -> Seq<char> {
    if v6 {
        "(w.frameGeometry || w.geometry)"@
    } else {
        "w.geometry"@
    }
}

/// A move call assigns the two numbers as the new place, in their order, and leaves
/// the size; a resize call assigns them as the new size and leaves the place.
pub proof fn law_move_and_resize_scripts(
    v6: bool,
    id: String,
    a: i32,
    b: i32,
    args: Seq<(&str, Json)>,
)
    requires
        plain(id@),
    ensures
        arg_views(args) == (ScriptCall::Move { id, x: a, y: b }).passes() ==> rendered(
            v6,
            ScriptCall::Move { id, x: a, y: b },
            args,
        ) == Ok::<Seq<char>, KWinErrorView>(
            search() + js_literal(id@) + ("; });\n"@ + "if (w) {\n    var g = "@
                + geometry_of_window(v6) + ";\n    w.frameGeometry = { x: "@ + dec_int(a as int) + (
            ", y: "@ + dec_int(b as int) + (", width: g.width, height: g.height };\n    "@
                + reported(no_window())))),
        ),
        arg_views(args) == (ScriptCall::Resize { id, w: a, h: b }).passes() ==> rendered(
            v6,
            ScriptCall::Resize { id, w: a, h: b },
            args,
        ) == Ok::<Seq<char>, KWinErrorView>(
            search() + js_literal(id@) + ("; });\n"@ + "if (w) {\n    var g = "@
                + geometry_of_window(v6) + ";\n    w.frameGeometry = { x: g.x, y: g.y, width: "@
                + dec_int(a as int) + (", height: "@ + dec_int(b as int) + (" };\n    "@ + reported(
                no_window(),
            )))),
        ),
{
    let m = ScriptCall::Move { id, x: a, y: b };
    if arg_views(args) == m.passes() {
        lemma_rendered(v6, m, args);
        assert(m.passes()[0].0 == "ID"@);
        assert(m.passes()[1].0 == "X"@);
        assert(m.passes()[2].0 == "Y"@);
        lemma_script(layout(v6, m.uses()), args);
    }
    let r = ScriptCall::Resize { id, w: a, h: b };
    if arg_views(args) == r.passes() {
        lemma_rendered(v6, r, args);
        assert(r.passes()[0].0 == "ID"@);
        assert(r.passes()[1].0 == "W"@);
        assert(r.passes()[2].0 == "H"@);
        lemma_script(layout(v6, r.uses()), args);
    }
}

/// A call that places a window assigns the sides of the rectangle to the sides of the
/// same names.
pub proof fn law_set_geometry_script(v6: bool, id: String, geo: Rect, args: Seq<(&str, Json)>)
    requires
        plain(id@),
        arg_views(args) == (ScriptCall::SetGeometry { id, geo }).passes(),
    ensures
        rendered(v6, ScriptCall::SetGeometry { id, geo }, args) == Ok::<Seq<char>, KWinErrorView>(
            search() + js_literal(id@) + ("; });\n"@ + "if (w) {\n    w.frameGeometry = { x: "@
                + dec_int(geo.x as int) + (", y: "@ + dec_int(geo.y as int) + (", width: "@
                + dec_int(geo.width as int) + (", height: "@ + dec_int(geo.height as int) + (
            " };\n    "@ + reported(no_window())))))),
        ),
{
    let call = ScriptCall::SetGeometry { id, geo };
    lemma_rendered(v6, call, args);
    assert(call.passes()[0].0 == "ID"@);
    assert(call.passes()[1].0 == "X"@);
    assert(call.passes()[2].0 == "Y"@);
    assert(call.passes()[3].0 == "W"@);
    assert(call.passes()[4].0 == "H"@);
    lemma_script(layout(v6, call.uses()), args);
}

/// A call that sends a window to a workspace searches for both by their identifiers
/// and gives the window that desktop.
pub proof fn law_send_to_workspace_script(id: String, ws: String, args: Seq<(&str, Json)>)
    requires
        plain(id@),
        plain(ws@),
        arg_views(args) == (ScriptCall::MoveToWorkspace { id, ws }).passes(),
    ensures
        rendered(true, ScriptCall::MoveToWorkspace { id, ws }, args) == Ok::<
            Seq<char>,
            KWinErrorView,
        >(
            search() + js_literal(id@) + ("; });\n"@ + desktop_search() + js_literal(ws@) + (
            "; });\nif (w && d) { w.desktops = [d];\n    "@ + reported(
                "{ success: false, error: \"Window or workspace not found\" }"@,
            ))),
        ),
        rendered(false, ScriptCall::MoveToWorkspace { id, ws }, args) == Ok::<
            Seq<char>,
            KWinErrorView,
        >(
            search() + js_literal(id@) + ("; });\n"@ + "if (w) { w.desktop = parseInt("@
                + js_literal(ws@) + (", 10);\n    "@ + reported(no_window()))),
        ),
{
    let call = ScriptCall::MoveToWorkspace { id, ws };
    lemma_rendered(true, call, args);
    lemma_rendered(false, call, args);
    assert(call.passes()[0].0 == "ID"@);
    assert(call.passes()[1].0 == "WS"@);
    lemma_script(layout(true, call.uses()), args);
    lemma_script(layout(false, call.uses()), args);
}

/// A call that switches the workspace searches for it by its identifier, or takes the
/// identifier as its number, and makes it the current one.
pub proof fn law_switch_workspace_script(ws: String, args: Seq<(&str, Json)>)
    requires
        plain(ws@),
        arg_views(args) == (ScriptCall::SwitchWorkspace { ws }).passes(),
    ensures
        rendered(true, ScriptCall::SwitchWorkspace { ws }, args) == Ok::<Seq<char>, KWinErrorView>(
            desktop_search() + js_literal(ws@) + (
            "; });\nif (d) { workspace.currentDesktop = d;\n    "@ + reported(
                "{ success: false, error: \"Workspace not found\" }"@,
            )),
        ),
        rendered(false, ScriptCall::SwitchWorkspace { ws }, args) == Ok::<Seq<char>, KWinErrorView>(
            "var n = parseInt("@ + js_literal(ws@) + (
            ", 10);\nif (isNaN(n) || n < 1 || n > workspace.desktops) { "@ + sent(
                "{ success: false, error: \"Workspace not found\" }"@,
            ) + "\n} else {\n    workspace.currentDesktop = n;\n    "@ + sent("{ success: true }"@)
                + "\n}"@),
        ),
{
    let call = ScriptCall::SwitchWorkspace { ws };
    lemma_rendered(true, call, args);
    lemma_rendered(false, call, args);
    assert(call.passes()[0].0 == "WS"@);
    lemma_script(layout(true, call.uses()), args);
    lemma_script(layout(false, call.uses()), args);
}

/// The list of windows reads each window's own members, in full.
pub proof fn law_list_windows_script(v6: bool)
    ensures
        template(v6, ScriptTemplate::ListWindows) == "var windows = workspace.windowList();\n\
    var result = [];\n\
    for (var i = 0; i < windows.length; i++) {\n\
    \x20   var w = windows[i];\n\
    \x20   var g = "@ + geometry_of_window(v6) + ";\n\
    \x20   result.push({\n\
    \x20       id: "@ + "(w.internalId !== undefined ? w.internalId.toString() : String(w.id))"@ + ",\n\
    \x20       title: w.caption,\n\
    \x20       appId: w.resourceClass || w.resourceName || \"\",\n\
    \x20       pid: w.pid,\n\
    \x20       geometry: { x: g.x, y: g.y, width: g.width, height: g.height },\n\
    \x20       frameGeometry: { x: g.x, y: g.y, width: g.width, height: g.height },\n\
    \x20       minimized: w.minimized === true,\n\
    \x20       maximized: (w.maximizeMode === 3),\n\
    \x20       fullscreen: w.fullScreen === true,\n\
    \x20       keepAbove: w.keepAbove === true,\n\
    \x20       desktop: "@ + (if v6 {
            "(w.desktops && w.desktops.length ? w.desktops[0].id : -1)"@
        } else {
            "(typeof w.desktop === \"number\" ? w.desktop : -1)"@
        }) + ",\n\
    \x20       stackingOrder: i,\n\
    \x20       windowType: w.windowType,\n\
    \x20       desktopFile: w.desktopFileName || \"\"\n\
    \x20   });\n\
    }\n"@ + sent("result"@),
        template(v6, ScriptTemplate::GetActiveWindow) == "var w = workspace.activeWindow;\n\
    var result = null;\n\
    if (w) { result = { id: "@ + "(w.internalId !== undefined ? w.internalId.toString() : String(w.id))"@ + ", title: w.caption,\n\
    \x20   appId: w.resourceClass || w.resourceName || \"\", pid: w.pid }; }\n"@ + sent("result"@),
{
}

/// The lists of virtual desktops and of screens, in full.
pub proof fn law_list_workspaces_and_monitors_scripts()
    ensures
        template(true, ScriptTemplate::ListWorkspaces) == "var result = [];\n\
    var dts = workspace.desktops;\n\
    for (var i = 0; i < dts.length; i++) {\n\
    \x20   var d = dts[i];\n\
    \x20   result.push({ id: String(d.id), name: d.name || (\"Desktop \" + (i + 1)),\n\
    \x20           number: i + 1, isActive: false });\n\
    }\n\
    var cur = workspace.currentDesktop;\n\
    for (var j = 0; j < result.length; j++) { if (String(cur.id) === result[j].id) { result[j].isActive = true; } }\n"@ + sent("result"@),
        template(false, ScriptTemplate::ListWorkspaces) == "var n = workspace.desktops;\n\
    var result = [];\n\
    for (var k = 1; k <= n; k++) {\n\
    \x20   result.push({ id: String(k), name: \"Desktop \" + k, number: k,\n\
    \x20           isActive: (workspace.currentDesktop === k) });\n\
    }\n"@ + sent("result"@),
        template(true, ScriptTemplate::ListMonitors) == "var screens = workspace.screens;\n\
    var result = [];\n\
    for (var m = 0; m < screens.length; m++) {\n\
    \x20   var s = screens[m];\n\
    \x20   result.push({ id: s.name, name: s.name,\n\
    \x20           geometry: { x: s.geometry.x, y: s.geometry.y,\n\
    \x20                       width: s.geometry.width, height: s.geometry.height },\n\
    \x20           scale: s.scale, isPrimary: (m === 0) });\n\
    }\n"@ + sent("result"@),
        template(false, ScriptTemplate::ListMonitors) == template(
            true,
            ScriptTemplate::ListMonitors,
        ),
{
}

/// The resident script pushes an opened event for a window that was added, a closed one
/// for a window that was removed, and a focused one for the window that became active.
pub proof fn law_event_monitor_script(v6: bool)
    ensures
        template(v6, ScriptTemplate::EventMonitor) == "function __push(payload) {\n"@ + ("callDBus(\""@
            + "com.agent_shell.Response"@ + "\", \""@ + "/com/agent_shell/response"@ + "\", \""@
            + "com.agent_shell.Response"@ + "\", \""@ + "sendResult"@ + "\", "@
            + "JSON.stringify("@ + "payload"@ + "));"@) + "\n\
    }\n\
    function __wid(w) {\n\
    \x20   return w.internalId !== undefined ? w.internalId.toString() : String(w.id);\n\
    }\n\
    workspace.windowAdded.connect(function(w) { __push({ event: \"windowOpened\", id: __wid(w) }); });\n\
    workspace.windowRemoved.connect(function(w) { __push({ event: \"windowClosed\", id: __wid(w) }); });\n\
    workspace.activeWindowChanged.connect(function() {\n\
    \x20   var w = workspace.activeWindow;\n\
    \x20   if (w) __push({ event: \"windowFocused\", id: __wid(w) });\n\
    });\n"@,
{
}

/// How characters are written inside a string literal: quotation marks, backslashes and
/// the common control characters by their own escapes, other control characters by the
/// two hexadecimal digits of their number, and every other character as it is.
pub proof fn law_characters_are_escaped(c: char)
    ensures
        escape('"') == seq!['\\', '"'],
        escape('\\') == seq!['\\', '\\'],
        escape('\n') == seq!['\\', 'n'],
        escape('\r') == seq!['\\', 'r'],
        escape('\t') == seq!['\\', 't'],
        (c as u32) >= 0x20 && c != '"' && c != '\\' ==> escape(c) == seq![c],
        (c as u32) < 0x20 && c != '\n' && c != '\r' && c != '\t' ==> {
            &&& escape(c).len() == 6
            &&& escape(c).take(5) == seq!['\\', 'u', '0', '0', if (c as u32) < 16 {
                '0'
            } else {
                '1'
            }]
            &&& escape(c)[5] == "0123456789abcdef"@[(c as u32 % 16) as int]
        },
{
    if (c as u32) < 0x20 && c != '\n' && c != '\r' && c != '\t' {
        reveal_strlit("0123456789abcdef");
        assert(escape(c).take(5) =~= seq!['\\', 'u', '0', '0', if (c as u32) < 16 {
            '0'
        } else {
            '1'
        }]);
    }
}

} // verus!
