//! The first window channel: scripts that the shell evaluates.

use vstd::prelude::*;

use crate::json::{parse, parsed, Json};
use crate::mutter::error::{
    disabled_hint, eval_disabled_hint, gnome_result, MutterError, MutterErrorView,
};
use crate::mutter::parse::{focused, focused_window, items_or_none, reported_windows, windows};
use crate::mutter::version::GnomeVersion;
use crate::text::{cat, cat3, chars_of, is_digit, is_number, same};
use crate::types::{opt_view, views, WindowInfo};

verus! {

/// The script that lists the windows.
pub const LIST_WINDOWS_JS: &'static str = "JSON.stringify(global.get_window_actors().map(a => {\n\
    \x20           let mw = a.meta_window;\n\
    \x20           return { id: mw.get_id(), title: mw.get_title() || '',\n\
    \x20                    appId: mw.get_wm_class() || '', pid: mw.get_pid(),\n\
    \x20                    minimized: mw.minimized, maximized: mw.maximized,\n\
    \x20                    fullscreen: mw.fullscreen,\n\
    \x20                    geometry: mw.get_frame_rect(),\n\
    \x20                    hasFocus: mw.has_focus() };\n\
    \x20       }))";

/// The script that asks whether scripts are evaluated at all.
pub const PROBE_JS: &'static str = "1 + 1";

/// The focus script in front of the window number.
pub const FOCUS_HEAD: &'static str = "(function() {\n\
    \x20                   let a = global.get_window_actors()\n\
    \x20                       .find(a => a.meta_window.get_id() == ";

/// The focus script behind the window number.
pub const FOCUS_TAIL: &'static str = ");\n\
    \x20                   if (!a) return 'false';\n\
    \x20                   a.meta_window.activate(global.get_current_time());\n\
    \x20                   return 'true';\n\
    \x20               })()";

/// The other scripts in front of the window number.
pub const FIND_HEAD: &'static str = "(global.get_window_actors().find(a => a.meta_window.get_id() == ";

/// The close script behind the window number.
pub const CLOSE_TAIL: &'static str = ")\n\
    \x20             ?.meta_window.delete(), null)";

/// The minimise script behind the window number.
pub const MINIMIZE_TAIL: &'static str = ")\n\
    \x20             ?.meta_window.minimized = ";

/// The maximise script behind the window number.
pub const MAXIMIZE_TAIL: &'static str = ")\n\
    \x20             ?.meta_window.maximize(";

/// What came of evaluating a script.
pub enum EvalReply {
    /// The shell is not on the bus.
    Unreachable(String),
    /// The call failed.
    Failed(String),
    /// The shell answered: whether it succeeded, and the result as JSON text.
    Done { success: bool, result: String },
}

/// The window channel that evaluates scripts.
#[derive(Debug)]
pub struct GnomeEvalBridge {
    /// The version of the shell; it decides what to advise where evaluation is
    /// off.
    pub version: GnomeVersion,
}

/// The value of an evaluated script.
pub open spec fn eval_value(version: GnomeVersion, reply: EvalReply) -> Result<
    Json,
    MutterErrorView,
> {
    match reply {
        EvalReply::Unreachable(e) => Err(
            MutterErrorView::Eval("org.gnome.Shell unreachable: "@ + e@),
        ),
        EvalReply::Failed(e) => Err(
            MutterErrorView::Eval("call failed at /org/gnome/Shell: "@ + e@),
        ),
        EvalReply::Done { success, result } => if !success {
            Err(MutterErrorView::Eval("shell-side failure: "@ + disabled_hint(version@.major)))
        } else {
            match parsed(result@) {
                Ok(j) => Ok(j),
                Err(e) => Err(MutterErrorView::Eval("invalid JSON from eval: "@ + e)),
            }
        },
    }
}

/// The error for an identifier that is no number.
pub open spec fn rejected_id(id: Seq<char>) -> MutterErrorView {
    MutterErrorView::Eval(
        "non-numeric window id `"@ + id + "` rejected (meta_window ids are numeric)"@,
    )
}

/// The script `head` `id` `tail`; identifiers that are no number get into no
/// script.
pub open spec fn script_for(head: Seq<char>, id: Seq<char>, tail: Seq<char>) -> Result<
    Seq<char>,
    MutterErrorView,
> {
    if is_number(id) {
        Ok(head + id + tail)
    } else {
        Err(rejected_id(id))
    }
}

/// `true` or `false`.
pub open spec fn bool_word(b: bool) -> Seq<char> {
    if b {
        "true"@
    } else {
        "false"@
    }
}

/// The directions in which a window is maximised.
pub open spec fn maximize_word(b: bool) -> Seq<char> {
    if b {
        "Meta.MaximizeFlags.BOTH"@
    } else {
        "0"@
    }
}

/// Passes on a window number; anything else is refused.
pub fn js_number(native_id: &str) -> (r: Result<&str, MutterError>)
    ensures
        match r {
            Ok(id) => is_number(native_id@) && id@ == native_id@,
            Err(e) => !is_number(native_id@) && e@ == rejected_id(native_id@),
        },
{
    let v = chars_of(native_id);
    let mut ok = v.len() > 0;
    let mut i: usize = 0;
    while i < v.len() && ok
        invariant
            i <= v.len(),
            v@ == native_id@,
            ok ==> v@.len() > 0 && forall|j: int| 0 <= j < i ==> is_digit(#[trigger] v@[j]),
            !ok ==> !is_number(native_id@),
        decreases v.len() - i,
    {
        let c = v[i];
        if !('0' <= c && c <= '9') {
            assert(!is_digit(native_id@[i as int]));
            ok = false;
        }
        i = i + 1;
    }
    if ok {
        Ok(native_id)
    } else {
        Err(
            MutterError::Eval(
                cat3(
                    "non-numeric window id `",
                    native_id,
                    "` rejected (meta_window ids are numeric)",
                ),
            ),
        )
    }
}

fn script(head: &str, native_id: &str, tail: &str) -> (r: Result<String, MutterError>)
    ensures
        gnome_result(r) == script_for(head@, native_id@, tail@),
{
    match js_number(native_id) {
        Ok(id) => Ok(cat3(head, id, tail)),
        Err(e) => Err(e),
    }
}

impl GnomeEvalBridge {
    /// A channel to a shell of the given version.
    pub fn new(version: GnomeVersion) -> (r: GnomeEvalBridge)
        ensures
            r.version == version,
    {
        GnomeEvalBridge { version }
    }

    /// The value of an evaluated script.
    pub fn eval_js(&self, reply: &EvalReply) -> (r: Result<Json, MutterError>)
        ensures
            match r {
                Ok(j) => eval_value(self.version, *reply) == Ok::<Json, MutterErrorView>(j),
                Err(e) => eval_value(self.version, *reply) == Err::<Json, MutterErrorView>(e@),
            },
    {
        match reply {
            EvalReply::Unreachable(e) => Err(
                MutterError::Eval(cat("org.gnome.Shell unreachable: ", e.as_str())),
            ),
            EvalReply::Failed(e) => Err(
                MutterError::Eval(cat("call failed at /org/gnome/Shell: ", e.as_str())),
            ),
            EvalReply::Done { success, result } => {
                if !*success {
                    return Err(
                        MutterError::Eval(
                            cat("shell-side failure: ", eval_disabled_hint(&self.version)),
                        ),
                    );
                }
                match parse(result.as_str()) {
                    Ok(j) => Ok(j),
                    Err(e) => Err(MutterError::Eval(cat("invalid JSON from eval: ", e.as_str()))),
                }
            },
        }
    }

    /// Whether the channel works, by the reply to [`PROBE_JS`]; the same holds of
    /// every script whose value does not matter.
    pub fn probe(&self, reply: &EvalReply) -> (r: Result<(), MutterError>)
        ensures
            match r {
                Ok(_) => eval_value(self.version, *reply) is Ok,
                Err(e) => eval_value(self.version, *reply) == Err::<Json, MutterErrorView>(e@),
            },
    {
        match self.eval_js(reply) {
            Ok(_) => Ok(()),
            Err(e) => Err(e),
        }
    }

    /// The windows in the reply to [`LIST_WINDOWS_JS`].
    pub fn list_windows(&self, reply: &EvalReply) -> (r: Result<Vec<WindowInfo>, MutterError>)
        ensures
            match eval_value(self.version, *reply) {
                Ok(j) => r matches Ok(v) && views(v@) == reported_windows(items_or_none(j)),
                Err(e) => r matches Err(x) && x@ == e,
            },
    {
        match self.eval_js(reply) {
            Ok(j) => Ok(windows(&j)),
            Err(e) => Err(e),
        }
    }

    /// The window with the focus in the reply to [`LIST_WINDOWS_JS`].
    pub fn get_active_window(&self, reply: &EvalReply) -> (r: Result<
        Option<WindowInfo>,
        MutterError,
    >)
        ensures
            match eval_value(self.version, *reply) {
                Ok(j) => r matches Ok(w) && opt_view(w) == focused_window(items_or_none(j)),
                Err(e) => r matches Err(x) && x@ == e,
            },
    {
        match self.eval_js(reply) {
            Ok(j) => Ok(focused(&j)),
            Err(e) => Err(e),
        }
    }

    /// The script that gives a window the focus.
    pub fn focus_script(&self, native_id: &str) -> (r: Result<String, MutterError>)
        ensures
            gnome_result(r) == script_for(FOCUS_HEAD@, native_id@, FOCUS_TAIL@),
    {
        script(FOCUS_HEAD, native_id, FOCUS_TAIL)
    }

    /// Whether the focus script found its window, by the reply to it.
    pub fn focus_window(&self, native_id: &str, reply: &EvalReply) -> (r: Result<(), MutterError>)
        ensures
            match eval_value(self.version, *reply) {
                Ok(j) => if j.str() == Some("true"@) {
                    r is Ok
                } else {
                    r matches Err(x) && x@ == MutterErrorView::Eval(
                        "window `"@ + native_id@ + "` not found"@,
                    )
                },
                Err(e) => r matches Err(x) && x@ == e,
            },
    {
        let found = match self.eval_js(reply) {
            Ok(j) => j,
            Err(e) => return Err(e),
        };
        if let Some(s) = found.as_str() {
            if same(s, "true") {
                return Ok(());
            }
        }
        Err(MutterError::Eval(cat3("window `", native_id, "` not found")))
    }

    /// The script that closes a window.
    pub fn close_script(&self, native_id: &str) -> (r: Result<String, MutterError>)
        ensures
            gnome_result(r) == script_for(FIND_HEAD@, native_id@, CLOSE_TAIL@),
    {
        script(FIND_HEAD, native_id, CLOSE_TAIL)
    }

    /// The script that minimises or restores a window.
    pub fn minimize_script(&self, native_id: &str, minimize: bool) -> (r: Result<
        String,
        MutterError,
    >)
        ensures
            gnome_result(r) == script_for(
                FIND_HEAD@,
                native_id@,
                MINIMIZE_TAIL@ + bool_word(minimize) + ", null)"@,
            ),
    {
        let word = if minimize {
            "true"
        } else {
            "false"
        };
        let tail = cat3(MINIMIZE_TAIL, word, ", null)");
        script(FIND_HEAD, native_id, tail.as_str())
    }

    /// The script that maximises a window or takes that back.
    pub fn maximize_script(&self, native_id: &str, maximize: bool) -> (r: Result<
        String,
        MutterError,
    >)
        ensures
            gnome_result(r) == script_for(
                FIND_HEAD@,
                native_id@,
                MAXIMIZE_TAIL@ + maximize_word(maximize) + "), null)"@,
            ),
    {
        let word = if maximize {
            "Meta.MaximizeFlags.BOTH"
        } else {
            "0"
        };
        let tail = cat3(MAXIMIZE_TAIL, word, "), null)");
        script(FIND_HEAD, native_id, tail.as_str())
    }
}

/// Only digits stand where a script names its window: whatever script is made for
/// `id`, `id` is a run of digits, and it stands right behind the head.
pub proof fn law_only_numbers_reach_scripts(
    head: Seq<char>,
    id: Seq<char>,
    tail: Seq<char>,
    text: Seq<char>,
)
    requires
        script_for(head, id, tail) == Ok::<Seq<char>, MutterErrorView>(text),
    ensures
        is_number(id),
        text.subrange(head.len() as int, (head.len() + id.len()) as int) == id,
        text.take(head.len() as int) == head,
        text.skip((head.len() + id.len()) as int) == tail,
{
    assert(text.subrange(head.len() as int, (head.len() + id.len()) as int) =~= id);
    assert(text.take(head.len() as int) =~= head);
    assert(text.skip((head.len() + id.len()) as int) =~= tail);
}

} // verus!
