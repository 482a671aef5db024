//! The clipboard component: which tool serves which session, and what its outcome
//! means.

use vstd::prelude::*;

use crate::text::{cat, cat3, lossy_text, owned, text_from_lossy, trim, trimmed};
use crate::types::{AgentShellError, ComponentHealth, ErrorView, HealthView};

verus! {

/// The kind of session.
#[derive(Clone, Copy, Debug, PartialEq, Eq, Structural)]
pub enum SessionKind {
    Wayland,
    X11,
    Unknown,
}

/// The kind of session, by which environment variables are set.
pub open spec fn session_of(
    wayland_display: bool,
    wayland_socket: bool,
    display: bool,
) -> SessionKind {
    if wayland_display || wayland_socket {
        SessionKind::Wayland
    } else if display {
        SessionKind::X11
    } else {
        SessionKind::Unknown
    }
}

/// The kind of session, by whether `WAYLAND_DISPLAY`, `WAYLAND_SOCKET` and
/// `DISPLAY` are set.
pub fn detect_session(wayland_display: bool, wayland_socket: bool, display: bool) -> (r:
    SessionKind)
    ensures
        r == session_of(wayland_display, wayland_socket, display),
{
    if wayland_display || wayland_socket {
        return SessionKind::Wayland;
    }
    if display {
        return SessionKind::X11;
    }
    SessionKind::Unknown
}

/// What is done with the clipboard.
#[derive(Clone, Copy, Debug, PartialEq, Eq, Structural)]
pub enum Access {
    Read,
    Write,
}

/// The program for a session.
pub open spec fn program(session: SessionKind, access: Access) -> Seq<char> {
    match (session, access) {
        (SessionKind::Wayland, Access::Read) => "wl-paste"@,
        (SessionKind::Wayland, Access::Write) => "wl-copy"@,
        _ => "xclip"@,
    }
}

/// The arguments of that program.
pub open spec fn arguments(session: SessionKind, access: Access) -> Seq<Seq<char>> {
    match (session, access) {
        (SessionKind::Wayland, Access::Read) => seq!["--no-newline"@],
        (SessionKind::Wayland, Access::Write) => Seq::empty(),
        (_, Access::Read) => seq!["-selection"@, "clipboard"@, "-o"@],
        (_, Access::Write) => seq!["-selection"@, "clipboard"@],
    }
}

/// The arguments as they are shown in an error.
pub open spec fn shown_arguments(session: SessionKind, access: Access) -> Seq<char> {
    match (session, access) {
        (SessionKind::Wayland, Access::Read) => "[\"--no-newline\"]"@,
        (SessionKind::Wayland, Access::Write) => "[]"@,
        (_, Access::Read) => "[\"-selection\", \"clipboard\", \"-o\"]"@,
        (_, Access::Write) => "[\"-selection\", \"clipboard\"]"@,
    }
}

/// A program to run.
#[derive(Debug)]
pub struct ToolCall {
    pub bin: &'static str,
    pub args: Vec<&'static str>,
}

/// The clipboard of a session.
#[derive(Debug)]
pub struct WlClipboard {
    pub session: SessionKind,
}

/// The error where there is no session.
pub open spec fn no_session() -> ErrorView {
    ErrorView::BackendUnavailable(
        "no WAYLAND_DISPLAY or DISPLAY in environment; cannot pick clipboard tool"@,
    )
}

/// What came of running a tool.
pub enum ToolOutcome {
    /// It could not be started.
    NotStarted(String),
    /// It does not listen to its input.
    NoInput,
    /// It stopped listening to its input.
    InputFailed(String),
    /// Its end could not be waited for.
    NotAwaited(String),
    /// It failed: its exit status, and what it said of that.
    Failed { status: String, errors: Vec<u8> },
    /// It succeeded with this output.
    Output(Vec<u8>),
}

/// The text of the clipboard, or the empty one after writing; or what went wrong.
pub open spec fn outcome_text(
    session: SessionKind,
    access: Access,
    o: ToolOutcome,
) -> Result<Seq<char>, ErrorView> {
    let bin = program(session, access);
    match o {
        ToolOutcome::NotStarted(e) => Err(ErrorView::BackendUnavailable(bin + ": "@ + e@)),
        ToolOutcome::NoInput => Err(ErrorView::Other("stdin unavailable"@)),
        ToolOutcome::InputFailed(e) => Err(ErrorView::Other("clipboard stdin write: "@ + e@)),
        ToolOutcome::NotAwaited(e) => Err(ErrorView::Other(bin + ": "@ + e@)),
        ToolOutcome::Failed { status, errors } => Err(
            ErrorView::BackendUnavailable(
                bin + " "@ + shown_arguments(session, access) + ": "@ + (match access {
                    Access::Read => trim(lossy_text(errors@)),
                    Access::Write => "exited with "@ + status@,
                }),
            ),
        ),
        ToolOutcome::Output(bytes) => match access {
            Access::Read => Ok(lossy_text(bytes@)),
            Access::Write => Ok(Seq::empty()),
        },
    }
}

impl WlClipboard {
    /// The clipboard of the session that the environment tells of.
    pub fn new(wayland_display: bool, wayland_socket: bool, display: bool) -> (r: WlClipboard)
        ensures
            r.session == session_of(wayland_display, wayland_socket, display),
    {
        WlClipboard { session: detect_session(wayland_display, wayland_socket, display) }
    }

    /// The clipboard of a known session.
    pub fn with_session(session: SessionKind) -> (r: WlClipboard)
        ensures
            r.session == session,
    {
        WlClipboard { session }
    }

    /// Whether there is a session at all.
    pub fn is_available(&self) -> (r: bool)
        ensures
            r == (self.session != SessionKind::Unknown),
    {
        self.session != SessionKind::Unknown
    }

    /// The program to run; without a session there is none.
    pub fn tool(&self, access: Access) -> (r: Result<ToolCall, AgentShellError>)
        ensures
            self.session == SessionKind::Unknown ==> (r matches Err(e) && e@ == no_session()),
            self.session != SessionKind::Unknown ==> (r matches Ok(c) && c.bin@ == program(
                self.session,
                access,
            ) && args_view(c.args@) == arguments(self.session, access)),
    {
        let mut args: Vec<&'static str> = Vec::new();
        let bin = match self.session {
            SessionKind::Unknown => {
                return Err(
                    AgentShellError::BackendUnavailable(
                        owned(
                            "no WAYLAND_DISPLAY or DISPLAY in environment; cannot pick clipboard tool",
                        ),
                    ),
                );
            },
            SessionKind::Wayland => match access {
                Access::Read => {
                    args.push("--no-newline");
                    "wl-paste"
                },
                Access::Write => "wl-copy",
            },
            SessionKind::X11 => {
                args.push("-selection");
                args.push("clipboard");
                if let Access::Read = access {
                    args.push("-o");
                }
                "xclip"
            },
        };
        assert(args_view(args@) =~= arguments(self.session, access));
        Ok(ToolCall { bin, args })
    }

    fn shown(&self, access: Access) -> (r: &'static str)
        ensures
            r@ == shown_arguments(self.session, access),
    {
        match (self.session, access) {
            (SessionKind::Wayland, Access::Read) => "[\"--no-newline\"]",
            (SessionKind::Wayland, Access::Write) => "[]",
            (_, Access::Read) => "[\"-selection\", \"clipboard\", \"-o\"]",
            (_, Access::Write) => "[\"-selection\", \"clipboard\"]",
        }
    }

    fn bin(&self, access: Access) -> (r: &'static str)
        ensures
            r@ == program(self.session, access),
    {
        match (self.session, access) {
            (SessionKind::Wayland, Access::Read) => "wl-paste",
            (SessionKind::Wayland, Access::Write) => "wl-copy",
            _ => "xclip",
        }
    }

    /// The text of the clipboard, or the empty one after writing; or what went
    /// wrong with the program.
    pub fn run(&self, access: Access, o: &ToolOutcome) -> (r: Result<String, AgentShellError>)
        ensures
            match r {
                Ok(s) => outcome_text(self.session, access, *o) == Ok::<Seq<char>, ErrorView>(s@),
                Err(e) => outcome_text(self.session, access, *o) == Err::<Seq<char>, ErrorView>(
                    e@,
                ),
            },
    {
        let bin = self.bin(access);
        match o {
            ToolOutcome::NotStarted(e) => Err(
                AgentShellError::BackendUnavailable(cat3(bin, ": ", e.as_str())),
            ),
            ToolOutcome::NoInput => Err(AgentShellError::Other(owned("stdin unavailable"))),
            ToolOutcome::InputFailed(e) => Err(
                AgentShellError::Other(cat("clipboard stdin write: ", e.as_str())),
            ),
            ToolOutcome::NotAwaited(e) => Err(AgentShellError::Other(cat3(bin, ": ", e.as_str()))),
            ToolOutcome::Failed { status, errors } => {
                let reason = match access {
                    Access::Read => {
                        let t = text_from_lossy(errors);
                        trimmed(t.as_str())
                    },
                    Access::Write => cat("exited with ", status.as_str()),
                };
                let head = cat3(bin, " ", self.shown(access));
                Err(
                    AgentShellError::BackendUnavailable(
                        cat3(head.as_str(), ": ", reason.as_str()),
                    ),
                )
            },
            ToolOutcome::Output(bytes) => match access {
                Access::Read => Ok(text_from_lossy(bytes)),
                Access::Write => Ok(String::new()),
            },
        }
    }

    /// The program that tells whether the tools are there, or the report that
    /// there is no session.
    pub fn health_tool(&self) -> (r: Result<ToolCall, ComponentHealth>)
        ensures
            match self.session {
                SessionKind::Wayland => r matches Ok(c) && c.bin@ == "wl-paste"@ && args_view(
                    c.args@,
                ) == seq!["--version"@],
                SessionKind::X11 => r matches Ok(c) && c.bin@ == "xclip"@ && args_view(c.args@)
                    == seq!["-version"@],
                SessionKind::Unknown => r matches Err(h) && h@ == HealthView::Degraded(
                    "no graphical session detected (WAYLAND_DISPLAY/DISPLAY unset)"@,
                ),
            },
    {
        let mut args: Vec<&'static str> = Vec::new();
        match self.session {
            SessionKind::Wayland => {
                args.push("--version");
                assert(args_view(args@) =~= seq!["--version"@]);
                Ok(ToolCall { bin: "wl-paste", args })
            },
            SessionKind::X11 => {
                args.push("-version");
                assert(args_view(args@) =~= seq!["-version"@]);
                Ok(ToolCall { bin: "xclip", args })
            },
            SessionKind::Unknown => Err(
                ComponentHealth::Degraded(
                    owned("no graphical session detected (WAYLAND_DISPLAY/DISPLAY unset)"),
                ),
            ),
        }
    }
}

/// The views of arguments.
pub open spec fn args_view(s: Seq<&'static str>) -> Seq<Seq<char>> {
    Seq::new(s.len(), |i: int| s[i]@)
}

/// How well a tool works, by whether it ran and succeeded.
pub fn probe_tool(bin: &str, outcome: Result<bool, String>) -> (r: ComponentHealth)
    ensures
        r@ == (match outcome {
            Ok(true) => HealthView::Healthy,
            Ok(false) => HealthView::Degraded(bin@ + " exited non-zero"@),
            Err(e) => HealthView::Degraded(bin@ + ": "@ + e@),
        }),
{
    match outcome {
        Ok(true) => ComponentHealth::Healthy,
        Ok(false) => ComponentHealth::Degraded(cat(bin, " exited non-zero")),
        Err(e) => ComponentHealth::Degraded(cat3(bin, ": ", e.as_str())),
    }
}

/// The clipboard of an X11 session.
#[derive(Debug)]
pub struct XClipboard(pub WlClipboard);

impl XClipboard {
    pub fn new() -> (r: XClipboard)
        ensures
            r.0.session == SessionKind::X11,
    {
        XClipboard(WlClipboard::with_session(SessionKind::X11))
    }

    /// Whether there is a session at all.
    pub fn is_available(&self) -> (r: bool)
        ensures
            r == (self.0.session != SessionKind::Unknown),
    {
        self.0.is_available()
    }
}

impl Default for XClipboard {
    fn default() -> (r: XClipboard)
        ensures
            r.0.session == SessionKind::X11,
    {
        XClipboard::new()
    }
}

/// A Wayland session is served by its own tools even where X11 is there too.
pub proof fn law_wayland_goes_first(socket: bool, display: bool)
    ensures
        session_of(true, socket, display) == SessionKind::Wayland,
        session_of(false, true, display) == SessionKind::Wayland,
{
}

/// Each session has its own programs: a Wayland session reads without the newline that
/// the tool would add, and writes as it is; an X11 session names the clipboard, and
/// reads with the option for output.
pub proof fn law_sessions_have_their_programs(socket: bool)
    ensures
        program(SessionKind::Wayland, Access::Read) == "wl-paste"@,
        program(SessionKind::Wayland, Access::Write) == "wl-copy"@,
        program(SessionKind::X11, Access::Read) == "xclip"@,
        program(SessionKind::X11, Access::Write) == "xclip"@,
        arguments(SessionKind::Wayland, Access::Read) == seq!["--no-newline"@],
        arguments(SessionKind::Wayland, Access::Write).len() == 0,
        arguments(SessionKind::X11, Access::Read) == seq!["-selection"@, "clipboard"@, "-o"@],
        arguments(SessionKind::X11, Access::Write) == seq!["-selection"@, "clipboard"@],
        session_of(false, false, true) == SessionKind::X11,
        session_of(false, false, false) == SessionKind::Unknown,
{
}

/// What was read is what the program wrote; writing gives nothing back. A program that
/// failed gives an error, and a failed read names what the program said of it.
pub proof fn law_outcomes_are_handed_on(session: SessionKind, o: ToolOutcome, access: Access)
    ensures
        o matches ToolOutcome::Output(bytes) ==> outcome_text(session, Access::Read, o) == Ok::<
            Seq<char>,
            ErrorView,
        >(lossy_text(bytes@)),
        o is Output ==> outcome_text(session, Access::Write, o) == Ok::<Seq<char>, ErrorView>(
            Seq::empty(),
        ),
        outcome_text(session, access, o) is Ok <==> o is Output,
        o matches ToolOutcome::Failed { status, errors } ==> (outcome_text(
            session,
            Access::Read,
            o,
        ) matches Err(ErrorView::BackendUnavailable(m)) && m == program(session, Access::Read)
            + " "@ + shown_arguments(session, Access::Read) + ": "@ + trim(lossy_text(errors@))),
{
}

/// Each failure is told with its reason, and that of the program with its name.
pub proof fn law_failures_are_told(session: SessionKind, access: Access, e: String)
    ensures
        outcome_text(session, access, ToolOutcome::NotStarted(e)) == Err::<Seq<char>, ErrorView>(
            ErrorView::BackendUnavailable(program(session, access) + ": "@ + e@),
        ),
        outcome_text(session, access, ToolOutcome::NoInput) == Err::<Seq<char>, ErrorView>(
            ErrorView::Other("stdin unavailable"@),
        ),
        outcome_text(session, access, ToolOutcome::InputFailed(e)) == Err::<Seq<char>, ErrorView>(
            ErrorView::Other("clipboard stdin write: "@ + e@),
        ),
        outcome_text(session, access, ToolOutcome::NotAwaited(e)) == Err::<Seq<char>, ErrorView>(
            ErrorView::Other(program(session, access) + ": "@ + e@),
        ),
        no_session() == ErrorView::BackendUnavailable(
            "no WAYLAND_DISPLAY or DISPLAY in environment; cannot pick clipboard tool"@,
        ),
{
}

} // verus!
