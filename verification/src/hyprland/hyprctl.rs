//! The control socket of Hyprland: where it is, what is sent, and what an answer
//! means.

use vstd::prelude::*;
use vstd::string::*;

use crate::json::{parse, parsed, Json};
use crate::text::{
    cat, cat3, dec_int, dec_int_of, lemma_texts_push, lower_all, opt_text, owned, path_in,
    path_join, same_ignoring_case, texts, trim, trimmed,
};
use crate::types::{unit_view, AgentShellError, ErrorView};

verus! {

/// How long a request may take, in seconds.
pub const REQUEST_TIMEOUT_SECS: u64 = 2;

/// How often a request is repeated after it failed.
pub const REQUEST_RETRIES: usize = 2;

/// The sockets of a session.
#[derive(Debug)]
pub struct Hyprctl {
    socket_path: String,
    event_socket_path: String,
    his: String,
}

/// The directory with the sockets of a session.
pub open spec fn session_dir(runtime: Seq<char>, his: Seq<char>) -> Seq<char> {
    path_join(path_join(runtime, "hypr"@), his)
}

impl Hyprctl {
    /// The path of the request socket.
    pub closed spec fn requests(self) -> Seq<char> {
        self.socket_path@
    }

    /// The path of the event socket.
    pub closed spec fn events(self) -> Seq<char> {
        self.event_socket_path@
    }

    /// The signature of the session.
    pub closed spec fn signature(self) -> Seq<char> {
        self.his@
    }

    /// The sockets of the session that the environment names: its signature and
    /// the runtime directory. Without either there is no session.
    pub fn new(his: Option<String>, runtime: Option<String>) -> (r: Result<
        Hyprctl,
        AgentShellError,
    >)
        ensures
            match (opt_text(his), opt_text(runtime)) {
                (None, _) => r matches Err(e) && e@ == ErrorView::BackendUnavailable(
                    "NOT in Hyprland session"@,
                ),
                (Some(_), None) => r matches Err(e) && e@ == ErrorView::BackendUnavailable(
                    "XDG_RUNTIME_DIR not set (no Hyprland session?)"@,
                ),
                (Some(h), Some(d)) => {
                    &&& r is Ok
                    &&& r->Ok_0.requests() == path_join(session_dir(d, h), ".socket.sock"@)
                    &&& r->Ok_0.events() == path_join(session_dir(d, h), ".socket2.sock"@)
                    &&& r->Ok_0.signature() == h
                },
            },
    {
        let his = match his {
            Some(h) => h,
            None => return Err(
                AgentShellError::BackendUnavailable(owned("NOT in Hyprland session")),
            ),
        };
        let runtime = match runtime {
            Some(d) => d,
            None => return Err(
                AgentShellError::BackendUnavailable(
                    owned("XDG_RUNTIME_DIR not set (no Hyprland session?)"),
                ),
            ),
        };
        let hypr = path_in(runtime.as_str(), "hypr");
        let base = path_in(hypr.as_str(), his.as_str());
        Ok(
            Hyprctl {
                socket_path: path_in(base.as_str(), ".socket.sock"),
                event_socket_path: path_in(base.as_str(), ".socket2.sock"),
                his,
            },
        )
    }

    /// A session with sockets at the given paths.
    pub fn with_paths(socket_path: String, event_socket_path: String, his: String) -> (r: Hyprctl)
        ensures
            r.requests() == socket_path@,
            r.events() == event_socket_path@,
            r.signature() == his@,
    {
        Hyprctl { socket_path, event_socket_path, his }
    }

    /// The path of the request socket.
    pub fn socket_path(&self) -> (r: &str)
        ensures
            r@ == self.requests(),
    {
        self.socket_path.as_str()
    }

    /// The path of the event socket.
    pub fn event_socket_path(&self) -> (r: &str)
        ensures
            r@ == self.events(),
    {
        self.event_socket_path.as_str()
    }

    /// The signature of the session.
    pub fn instance_signature(&self) -> (r: &str)
        ensures
            r@ == self.signature(),
    {
        self.his.as_str()
    }
}

/// Whether a request is made again after it failed so many times.
pub fn try_again(failures: usize) -> (r: bool)
    ensures
        r == (failures <= REQUEST_RETRIES),
{
    failures <= REQUEST_RETRIES
}

/// What a JSON answer holds, or the error for an answer that is no JSON.
pub open spec fn answer_value(text: Seq<char>) -> Result<Json, ErrorView> {
    match parsed(text) {
        Ok(v) => Ok(v),
        Err(e) => Err(ErrorView::BackendUnavailable("hyprctl bad json: "@ + e)),
    }
}

/// Reads a JSON answer.
pub fn read_json(text: &str) -> (r: Result<Json, AgentShellError>)
    ensures
        match r {
            Ok(v) => answer_value(text@) == Ok::<Json, ErrorView>(v),
            Err(e) => answer_value(text@) == Err::<Json, ErrorView>(e@),
        },
{
    match parse(text) {
        Ok(v) => Ok(v),
        Err(e) => Err(
            AgentShellError::BackendUnavailable(cat("hyprctl bad json: ", e.as_str())),
        ),
    }
}

/// Whether an answer says that an action was carried out: "ok", in any case and
/// with any white space around it. Everything else is a refusal.
pub open spec fn accepted(text: Seq<char>, what: Seq<char>) -> Result<(), ErrorView> {
    if lower_all(trim(text)) == lower_all("ok"@) {
        Ok(())
    } else {
        Err(
            ErrorView::BackendUnavailable(
                "hyprctl `"@ + what + "` rejected: "@ + trim(text),
            ),
        )
    }
}

/// Checks the answer to an action.
pub fn expect_ok(text: &str, what: &str) -> (r: Result<(), AgentShellError>)
    ensures
        unit_view(r) == accepted(text@, what@),
{
    let t = trimmed(text);
    if same_ignoring_case(t.as_str(), "ok") {
        return Ok(());
    }
    let mut out = cat3("hyprctl `", what, "` rejected: ");
    out.append(t.as_str());
    Err(AgentShellError::BackendUnavailable(out))
}

impl Hyprctl {
    /// The request that carries out an action.
    pub fn dispatch(action: &str) -> (r: String)
        ensures
            r@ == "dispatch "@ + action@,
    {
        cat("dispatch ", action)
    }

    /// The request that sets an option.
    pub fn set_keyword(keyword: &str) -> (r: String)
        ensures
            r@ == "/keyword "@ + keyword@,
    {
        cat("/keyword ", keyword)
    }
}

/// The request for all windows.
pub const CLIENTS: &'static str = "clients -j";

/// The request for all monitors.
pub const MONITORS: &'static str = "monitors -j";

/// The request for all workspaces.
pub const WORKSPACES: &'static str = "workspaces -j";

/// The request for the version.
pub const VERSION: &'static str = "version -j";

/// The request for the active window.
pub const ACTIVE_WINDOW: &'static str = "activewindow -j";

/// The request for the active workspace.
pub const ACTIVE_WORKSPACE: &'static str = "activeworkspace -j";

/// The selector for the window at an address.
pub open spec fn at_address(address: Seq<char>) -> Seq<char> {
    "address:0x"@ + address
}

/// The action that lets a window float.
pub open spec fn float_action(address: Seq<char>) -> Seq<char> {
    "setfloating "@ + at_address(address)
}

/// The action that moves or resizes a window to exact numbers.
pub open spec fn exact_action(verb: Seq<char>, a: int, b: int, address: Seq<char>) -> Seq<char> {
    verb + " exact "@ + dec_int(a) + " "@ + dec_int(b) + ","@ + at_address(address)
}

fn selector(address: &str) -> (r: String)
    ensures
        r@ == at_address(address@),
{
    cat("address:0x", address)
}

fn floating(address: &str) -> (r: String)
    ensures
        r@ == float_action(address@),
{
    let s = selector(address);
    cat("setfloating ", s.as_str())
}

fn exact(verb: &str, a: i32, b: i32, address: &str) -> (r: String)
    ensures
        r@ == exact_action(verb@, a as int, b as int, address@),
{
    let s = selector(address);
    let x = dec_int_of(a as i64);
    let y = dec_int_of(b as i64);
    let mut out = cat3(verb, " exact ", x.as_str());
    out.append(" ");
    out.append(y.as_str());
    out.append(",");
    out.append(s.as_str());
    out
}

impl Hyprctl {
    /// The action that focuses a window.
    pub fn focus_window(address: &str) -> (r: String)
        ensures
            r@ == "focuswindow "@ + at_address(address@),
    {
        let s = selector(address);
        cat("focuswindow ", s.as_str())
    }

    /// The action that closes a window.
    pub fn close_window(address: &str) -> (r: String)
        ensures
            r@ == "closewindow "@ + at_address(address@),
    {
        let s = selector(address);
        cat("closewindow ", s.as_str())
    }

    /// The action that maximises a window.
    pub fn maximize_window(address: &str) -> (r: String)
        ensures
            r@ == "fullscreen 1,"@ + at_address(address@),
    {
        let s = selector(address);
        cat("fullscreen 1,", s.as_str())
    }

    /// The action that switches to a workspace.
    pub fn activate_workspace(id: i32) -> (r: String)
        ensures
            r@ == "workspace "@ + dec_int(id as int),
    {
        let n = dec_int_of(id as i64);
        cat("workspace ", n.as_str())
    }

    /// The action that moves a window to a workspace without following it.
    pub fn move_window_to_workspace(address: &str, workspace: &str) -> (r: String)
        ensures
            r@ == "movetoworkspacesilent "@ + workspace@ + ","@ + at_address(address@),
    {
        let s = selector(address);
        let mut out = cat3("movetoworkspacesilent ", workspace, ",");
        out.append(s.as_str());
        out
    }

    /// The actions that move a window to exact coordinates; it has to float first.
    pub fn move_window(address: &str, x: i32, y: i32) -> (r: Vec<String>)
        ensures
            texts(r@) == seq![
                float_action(address@),
                exact_action("movewindowpixel"@, x as int, y as int, address@),
            ],
    {
        broadcast use lemma_texts_push;

        let mut out: Vec<String> = Vec::new();
        out.push(floating(address));
        out.push(exact("movewindowpixel", x, y, address));
        assert(texts(out@) =~= seq![
            float_action(address@),
            exact_action("movewindowpixel"@, x as int, y as int, address@),
        ]);
        out
    }

    /// The actions that resize a window to an exact size; it has to float first.
    pub fn resize_window(address: &str, w: i32, h: i32) -> (r: Vec<String>)
        ensures
            texts(r@) == seq![
                float_action(address@),
                exact_action("resizewindowpixel"@, w as int, h as int, address@),
            ],
    {
        broadcast use lemma_texts_push;

        let mut out: Vec<String> = Vec::new();
        out.push(floating(address));
        out.push(exact("resizewindowpixel", w, h, address));
        assert(texts(out@) =~= seq![
            float_action(address@),
            exact_action("resizewindowpixel"@, w as int, h as int, address@),
        ]);
        out
    }

    /// The actions that set the geometry of a window; it has to float first.
    pub fn set_window_geometry(address: &str, geo: crate::types::Rect) -> (r: Vec<String>)
        ensures
            texts(r@) == seq![
                float_action(address@),
                exact_action("movewindowpixel"@, geo.x as int, geo.y as int, address@),
                exact_action("resizewindowpixel"@, geo.width as int, geo.height as int, address@),
            ],
    {
        broadcast use lemma_texts_push;

        let mut out: Vec<String> = Vec::new();
        out.push(floating(address));
        out.push(exact("movewindowpixel", geo.x, geo.y, address));
        out.push(exact("resizewindowpixel", geo.width, geo.height, address));
        assert(texts(out@) =~= seq![
            float_action(address@),
            exact_action("movewindowpixel"@, geo.x as int, geo.y as int, address@),
            exact_action("resizewindowpixel"@, geo.width as int, geo.height as int, address@),
        ]);
        out
    }
}

} // verus!
