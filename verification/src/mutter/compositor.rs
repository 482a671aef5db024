//! The GNOME compositor component: which channel it uses, what it asks of that
//! channel, and what it reports.

use vstd::prelude::*;

use crate::mutter::error::{MutterError, MutterErrorView, EXTENSION_ID};
use crate::mutter::eval::{
    bool_word, maximize_word, script_for, GnomeEvalBridge, CLOSE_TAIL, FIND_HEAD, FOCUS_HEAD,
    FOCUS_TAIL, MAXIMIZE_TAIL, MINIMIZE_TAIL,
};
use crate::mutter::extension::{extension_id, parse_u32, ExtensionRunner};
use crate::mutter::version::{GnomeMajor, GnomeVersion, GnomeVersionView};
use crate::text::{cat, cat3, dec, dec_of, opt_text, owned, texts};
use crate::types::{
    unit_view, AgentShellError, BackendCapabilities, ComponentHealth, ErrorView, HealthView,
    WindowId,
};
use crate::wayland_core::{WaylandCompositor, WaylandDisplayServer};

verus! {

/// The kind of session.
#[derive(Clone, Copy, Debug, PartialEq, Eq, Structural)]
pub enum SessionKind {
    Wayland,
    X11,
}

/// The window channel in use.
#[derive(Debug)]
pub enum GnomePath {
    Eval(GnomeEvalBridge),
    Extension(ExtensionRunner),
}

impl GnomePath {
    /// The name of the channel.
    pub open spec fn label(self) -> Seq<char> {
        match self {
            GnomePath::Eval(_) => "Eval"@,
            GnomePath::Extension(_) => "Extension"@,
        }
    }

    /// The name of the channel.
    pub fn kind(&self) -> (r: &'static str)
        ensures
            r@ == self.label(),
    {
        match self {
            GnomePath::Eval(_) => "Eval",
            GnomePath::Extension(_) => "Extension",
        }
    }
}

// ---------------------------------------------------------------------------
// Choosing the channel
// ---------------------------------------------------------------------------
/// The two window channels.
#[derive(Clone, Copy, Debug, PartialEq, Eq, Structural)]
pub enum Channel {
    Eval,
    Extension,
}

/// The channel that is tried first.
pub open spec fn first_channel(major: GnomeMajor) -> Channel {
    match major {
        GnomeMajor::Pre47 => Channel::Eval,
        GnomeMajor::V47Plus => Channel::Extension,
    }
}

impl Channel {
    /// The other channel.
    pub open spec fn other(self) -> Channel {
        match self {
            Channel::Eval => Channel::Extension,
            Channel::Extension => Channel::Eval,
        }
    }
}

/// What to do next on the way to a window channel.
pub enum PathStep {
    /// Find out whether this channel works.
    Probe(Channel),
    /// Use this channel.
    Use(Channel),
    /// No channel works.
    Fail(MutterError),
}

/// What the next step is.
#[verifier::ext_equal]
pub enum StepView {
    Probe(Channel),
    Use(Channel),
    Fail(MutterErrorView),
}

impl View for PathStep {
    type V = StepView;

    open spec fn view(&self) -> StepView {
        match *self {
            PathStep::Probe(c) => StepView::Probe(c),
            PathStep::Use(c) => StepView::Use(c),
            PathStep::Fail(e) => StepView::Fail(e@),
        }
    }
}

/// The outcome of a probe, if there was one.
pub open spec fn probed(o: Option<Result<(), MutterError>>) -> Option<Result<(), MutterErrorView>> {
    match o {
        None => None,
        Some(Ok(_)) => Some(Ok(())),
        Some(Err(e)) => Some(Err(e@)),
    }
}

/// The outcome of the probe of a channel.
pub open spec fn outcome_of(
    c: Channel,
    eval: Option<Result<(), MutterErrorView>>,
    extension: Option<Result<(), MutterErrorView>>,
) -> Option<Result<(), MutterErrorView>> {
    match c {
        Channel::Eval => eval,
        Channel::Extension => extension,
    }
}

/// The next step: the first channel for the version if it works, or else the
/// other one. Where neither works, the error of the extension is reported.
pub open spec fn next_step(
    major: GnomeMajor,
    eval: Option<Result<(), MutterErrorView>>,
    extension: Option<Result<(), MutterErrorView>>,
) -> StepView {
    let first = first_channel(major);
    match outcome_of(first, eval, extension) {
        None => StepView::Probe(first),
        Some(Ok(_)) => StepView::Use(first),
        Some(Err(e)) => match outcome_of(first.other(), eval, extension) {
            None => StepView::Probe(first.other()),
            Some(Ok(_)) => StepView::Use(first.other()),
            Some(Err(f)) => StepView::Fail(
                match first {
                    Channel::Eval => f,
                    Channel::Extension => e,
                },
            ),
        },
    }
}

/// The next step on the way to a window channel.
pub fn select_path(
    major: GnomeMajor,
    eval: Option<Result<(), MutterError>>,
    extension: Option<Result<(), MutterError>>,
) -> (r: PathStep)
    ensures
        r@ == next_step(major, probed(eval), probed(extension)),
{
    match major {
        GnomeMajor::Pre47 => match eval {
            None => PathStep::Probe(Channel::Eval),
            Some(Ok(_)) => PathStep::Use(Channel::Eval),
            Some(Err(_)) => match extension {
                None => PathStep::Probe(Channel::Extension),
                Some(Ok(_)) => PathStep::Use(Channel::Extension),
                Some(Err(e)) => PathStep::Fail(e),
            },
        },
        GnomeMajor::V47Plus => match extension {
            None => PathStep::Probe(Channel::Extension),
            Some(Ok(_)) => PathStep::Use(Channel::Extension),
            Some(Err(e)) => match eval {
                None => PathStep::Probe(Channel::Eval),
                Some(Ok(_)) => PathStep::Use(Channel::Eval),
                Some(Err(_)) => PathStep::Fail(e),
            },
        },
    }
}

/// Only a channel that was found to work is used, and one that works is always
/// used once both have been tried.
pub proof fn law_used_channel_works(
    major: GnomeMajor,
    eval: Option<Result<(), MutterErrorView>>,
    extension: Option<Result<(), MutterErrorView>>,
)
    ensures
        next_step(major, eval, extension) matches StepView::Use(c) ==> outcome_of(
            c,
            eval,
            extension,
        ) matches Some(Ok(_)),
        eval is Some && extension is Some ==> (next_step(major, eval, extension) is Fail <==> (eval
            matches Some(Err(_)) && extension matches Some(Err(_)))),
        eval is Some && extension is Some ==> !(next_step(major, eval, extension) is Probe),
{
}

/// Where no channel works, what is reported is what the extension said.
pub proof fn law_failure_is_the_extensions(
    major: GnomeMajor,
    e: MutterErrorView,
    x: MutterErrorView,
)
    ensures
        next_step(major, Some(Err(e)), Some(Err(x))) == StepView::Fail(x),
{
}

// ---------------------------------------------------------------------------
// The component
// ---------------------------------------------------------------------------
/// The compositor component of a GNOME session.
#[derive(Debug)]
pub struct MutterCompositor {
    wayland_core: Option<WaylandDisplayServer>,
    session: SessionKind,
    wayland_display_name: Option<String>,
    path: GnomePath,
    version: GnomeVersion,
    /// 0: not asked yet, 1: absent, 2: present.
    screensaver_probe: u8,
}

/// What a component is made of.
#[verifier::ext_equal]
pub struct MutterView {
    pub wayland_core: Option<WaylandDisplayServer>,
    pub session: SessionKind,
    pub wayland_display_name: Option<Seq<char>>,
    pub path: GnomePath,
    pub version: GnomeVersionView,
    pub screensaver_probe: u8,
}

impl View for MutterCompositor {
    type V = MutterView;

    closed spec fn view(&self) -> MutterView {
        MutterView {
            wayland_core: self.wayland_core,
            session: self.session,
            wayland_display_name: opt_text(self.wayland_display_name),
            path: self.path,
            version: self.version@,
            screensaver_probe: self.screensaver_probe,
        }
    }
}

/// An operation on one window.
#[derive(Clone, Copy, Debug, PartialEq, Eq, Structural)]
pub enum OpKind {
    Focus,
    Close,
    Minimize(bool),
    Maximize(bool),
}

/// What is asked of the channel.
#[derive(Debug)]
pub enum WindowRequest {
    /// Evaluate a script.
    Script(String),
    /// Call the extension.
    Call(u32, OpKind),
    /// Have the extension move a window.
    Move(u32, i32, i32),
}

/// What a request says.
#[verifier::ext_equal]
pub enum RequestView {
    Script(Seq<char>),
    Call(nat, OpKind),
    Move(nat, i32, i32),
}

impl View for WindowRequest {
    type V = RequestView;

    open spec fn view(&self) -> RequestView {
        match *self {
            WindowRequest::Script(s) => RequestView::Script(s@),
            WindowRequest::Call(n, op) => RequestView::Call(n as nat, op),
            WindowRequest::Move(n, x, y) => RequestView::Move(n as nat, x, y),
        }
    }
}

/// The script for an operation.
pub open spec fn op_script(id: Seq<char>, op: OpKind) -> Result<Seq<char>, MutterErrorView> {
    match op {
        OpKind::Focus => script_for(FOCUS_HEAD@, id, FOCUS_TAIL@),
        OpKind::Close => script_for(FIND_HEAD@, id, CLOSE_TAIL@),
        OpKind::Minimize(b) => script_for(
            FIND_HEAD@,
            id,
            MINIMIZE_TAIL@ + bool_word(b) + ", null)"@,
        ),
        OpKind::Maximize(b) => script_for(
            FIND_HEAD@,
            id,
            MAXIMIZE_TAIL@ + maximize_word(b) + "), null)"@,
        ),
    }
}

/// What is asked of a channel for an operation.
pub open spec fn op_request(path: GnomePath, id: Seq<char>, op: OpKind) -> Result<
    RequestView,
    ErrorView,
> {
    match path {
        GnomePath::Eval(_) => match op_script(id, op) {
            Ok(s) => Ok(RequestView::Script(s)),
            Err(e) => Err(e.shell_error()),
        },
        GnomePath::Extension(_) => match extension_id(id) {
            Ok(n) => Ok(RequestView::Call(n, op)),
            Err(e) => Err(e.shell_error()),
        },
    }
}

/// What is asked of a channel for a move.
pub open spec fn move_request(path: GnomePath, id: Seq<char>, x: i32, y: i32) -> Result<
    RequestView,
    ErrorView,
> {
    match path {
        GnomePath::Eval(_) => Err(
            ErrorView::NotImplemented("mutter: window move unavailable on Eval path"@),
        ),
        GnomePath::Extension(_) => match extension_id(id) {
            Ok(n) => Ok(RequestView::Move(n, x, y)),
            Err(e) => Err(e.shell_error()),
        },
    }
}

/// The view of a request or of the reason why there is none.
pub open spec fn request_view(r: Result<WindowRequest, AgentShellError>) -> Result<
    RequestView,
    ErrorView,
> {
    match r {
        Ok(x) => Ok(x@),
        Err(e) => Err(e@),
    }
}

/// An operation that GNOME does not offer.
#[derive(Clone, Copy, Debug, PartialEq, Eq, Structural)]
pub enum Missing {
    Resize,
    SetGeometry,
    ListWorkspaces,
    ActivateWorkspace,
    MoveToWorkspace,
}

/// Why the operation is not offered.
pub open spec fn missing_reason(m: Missing) -> Seq<char> {
    match m {
        Missing::Resize =>
            "mutter: window resize not supported on GNOME (no protocol; portal-only)"@,
        Missing::SetGeometry =>
            "mutter: set_geometry not supported on GNOME (no protocol; portal-only)"@,
        Missing::ListWorkspaces => "mutter: workspace enumeration not supported on GNOME"@,
        Missing::ActivateWorkspace => "mutter: workspace activation not supported on GNOME"@,
        Missing::MoveToWorkspace => "mutter: move-to-workspace not supported on GNOME"@,
    }
}

/// The error of an operation that GNOME does not offer.
pub fn unsupported(m: Missing) -> (r: AgentShellError)
    ensures
        r@ == ErrorView::NotImplemented(missing_reason(m)),
{
    AgentShellError::NotImplemented(
        match m {
            Missing::Resize => owned(
                "mutter: window resize not supported on GNOME (no protocol; portal-only)",
            ),
            Missing::SetGeometry => owned(
                "mutter: set_geometry not supported on GNOME (no protocol; portal-only)",
            ),
            Missing::ListWorkspaces => owned(
                "mutter: workspace enumeration not supported on GNOME",
            ),
            Missing::ActivateWorkspace => owned(
                "mutter: workspace activation not supported on GNOME",
            ),
            Missing::MoveToWorkspace => owned("mutter: move-to-workspace not supported on GNOME"),
        },
    )
}

// ---------------------------------------------------------------------------
// The name of the display, and the report
// ---------------------------------------------------------------------------
/// The name of the display: `WAYLAND_DISPLAY`, or the descriptor in
/// `WAYLAND_SOCKET`, or "wayland".
pub open spec fn display_name(display: Option<Seq<char>>, socket: Option<Seq<char>>) -> Seq<char> {
    if display matches Some(d) && d.len() > 0 {
        display->0
    } else if socket matches Some(s) && s.len() > 0 {
        "fd:"@ + socket->0
    } else {
        "wayland"@
    }
}

/// The name of the display.
pub fn wayland_display_name(
    wayland_display: Option<String>,
    wayland_socket: Option<String>,
) -> (r: String)
    ensures
        r@ == display_name(opt_text(wayland_display), opt_text(wayland_socket)),
{
    if let Some(name) = wayland_display {
        if !name.as_str().is_empty() {
            return name;
        }
    }
    if let Some(fd) = wayland_socket {
        if !fd.as_str().is_empty() {
            return cat("fd:", fd.as_str());
        }
    }
    owned("wayland")
}

/// The connection to the display server, or none: the other channels work
/// without it.
pub fn degrade_wayland_failure(result: Result<WaylandDisplayServer, AgentShellError>) -> (r: Option<
    WaylandDisplayServer,
>)
    ensures
        r == (match result {
            Ok(wl) => Some(wl),
            Err(_) => None,
        }),
{
    match result {
        Ok(wl) => Some(wl),
        Err(_) => None,
    }
}

/// The line for a connection to the display server.
pub open spec fn connected_line(display: Seq<char>, globals: nat) -> Seq<char> {
    "✓ Wayland 显示  : "@ + display + " (wl_display connected, "@ + dec(globals) + " globals)"@
}

/// The line for a Wayland session without a connection.
pub open spec fn degraded_line(display: Seq<char>) -> Seq<char> {
    "⚠ 协议通道     : D-Bus（org.gnome.Shell；Wayland 会话 "@ + display
        + " 连接失败，仅 D-Bus 可用）"@
}

/// The line for a connection to the display server.
pub fn wayland_protocol_line(display: &str, globals: usize) -> (r: String)
    ensures
        r@ == connected_line(display@, globals as nat),
{
    let head = cat3("✓ Wayland 显示  : ", display, " (wl_display connected, ");
    let n = dec_of(globals as u64);
    cat3(head.as_str(), n.as_str(), " globals)")
}

/// The line for a Wayland session without a connection.
pub fn degraded_wayland_protocol_line(display: &str) -> (r: String)
    ensures
        r@ == degraded_line(display@),
{
    cat3(
        "⚠ 协议通道     : D-Bus（org.gnome.Shell；Wayland 会话 ",
        display,
        " 连接失败，仅 D-Bus 可用）",
    )
}

/// The line for an X11 session.
pub fn x11_protocol_line() -> (r: String)
    ensures
        r@ == "⚠ 协议通道     : D-Bus（org.gnome.Shell，X11 会话无 Wayland 绑定）"@,
{
    owned("⚠ 协议通道     : D-Bus（org.gnome.Shell，X11 会话无 Wayland 绑定）")
}

impl MutterView {
    /// The line about the protocol channel.
    pub open spec fn protocol_line(self) -> Seq<char> {
        match self.session {
            SessionKind::X11 =>
                "⚠ 协议通道     : D-Bus（org.gnome.Shell，X11 会话无 Wayland 绑定）"@,
            SessionKind::Wayland => match (self.wayland_core, self.wayland_display_name) {
                (Some(wl), Some(name)) => connected_line(name, wl.globals as nat),
                (_, Some(name)) => degraded_line(name),
                (_, None) => degraded_line("wayland"@),
            },
        }
    }

    /// The report: the protocol channel, the version, the window channel, the
    /// interfaces and the limits.
    pub open spec fn report(self) -> Seq<Seq<char>> {
        seq![
            self.protocol_line(),
            "✓ GNOME 版本   : GNOME "@ + self.version.full + " ("@ + (if self.version.major
                == GnomeMajor::V47Plus {
                "Eval 受限"@
            } else {
                "Eval 可用"@
            }) + ")"@,
            "✓ 后端路径     : "@ + self.path.label() + " ("@ + EXTENSION_ID@
                + ")"@,
            "✓ D-Bus 接口   : org.gnome.Shell ✓, DisplayConfig ✓, ScreenSaver "@ + (if self.screensaver_probe
                == 2 {
                "✓"@
            } else {
                "⚠"@
            }),
            "⚠ 窗口操作     : 受限（无 move/resize/workspace）"@,
        ]
    }
}

impl MutterCompositor {
    /// A component for a session whose version is known and whose window channel
    /// was chosen.
    fn with_session(
        session: SessionKind,
        wayland_core: Option<WaylandDisplayServer>,
        wayland_display_name: Option<String>,
        version: GnomeVersion,
        path: GnomePath,
    ) -> (r: MutterCompositor)
        ensures
            r@ == (MutterView {
                wayland_core,
                session,
                wayland_display_name: opt_text(wayland_display_name),
                path,
                version: version@,
                screensaver_probe: 0,
            }),
    {
        MutterCompositor {
            wayland_core,
            session,
            wayland_display_name,
            path,
            version,
            screensaver_probe: 0,
        }
    }

    /// A component for a Wayland session. A failed connection to the display
    /// server does not make it fail.
    pub fn new_wayland(
        server: Result<WaylandDisplayServer, AgentShellError>,
        wayland_display: Option<String>,
        wayland_socket: Option<String>,
        version: GnomeVersion,
        path: GnomePath,
    ) -> (r: MutterCompositor)
        ensures
            r@ == (MutterView {
                wayland_core: match server {
                    Ok(wl) => Some(wl),
                    Err(_) => None,
                },
                session: SessionKind::Wayland,
                wayland_display_name: Some(
                    display_name(opt_text(wayland_display), opt_text(wayland_socket)),
                ),
                path,
                version: version@,
                screensaver_probe: 0,
            }),
    {
        let name = wayland_display_name(wayland_display, wayland_socket);
        MutterCompositor::with_session(
            SessionKind::Wayland,
            degrade_wayland_failure(server),
            Some(name),
            version,
            path,
        )
    }

    /// A component for an X11 session.
    pub fn new_x11(version: GnomeVersion, path: GnomePath) -> (r: MutterCompositor)
        ensures
            r@ == (MutterView {
                wayland_core: None,
                session: SessionKind::X11,
                wayland_display_name: None,
                path,
                version: version@,
                screensaver_probe: 0,
            }),
    {
        MutterCompositor::with_session(SessionKind::X11, None, None, version, path)
    }

    /// The kind of session.
    pub fn session_kind(&self) -> (r: SessionKind)
        ensures
            r == self@.session,
    {
        self.session
    }

    /// The connection to the display server, where there is one.
    pub fn wayland_display_server(&self) -> (r: Option<&WaylandDisplayServer>)
        ensures
            match r {
                Some(wl) => self@.wayland_core == Some(*wl),
                None => self@.wayland_core is None,
            },
    {
        match &self.wayland_core {
            Some(wl) => Some(wl),
            None => None,
        }
    }

    /// Whether the screen saver still has to be asked for; once seen it counts as
    /// present.
    pub fn screensaver_wanted(&self) -> (r: bool)
        ensures
            r == (self@.screensaver_probe != 2),
    {
        self.screensaver_probe != 2
    }

    /// Takes in whether the screen saver is on the bus. `None` means that the bus
    /// could not be asked, which changes nothing.
    pub fn ensure_screensaver_probe(&mut self, owner: Option<bool>) -> (r: bool)
        ensures
            old(self)@.screensaver_probe == 2 ==> r && final(self)@ == old(self)@,
            old(self)@.screensaver_probe != 2 ==> match owner {
                Some(present) => r == present && final(self)@ == (MutterView {
                    screensaver_probe: if present {
                        2
                    } else {
                        1
                    },
                    ..old(self)@
                }),
                None => !r && final(self)@ == old(self)@,
            },
    {
        if self.screensaver_probe == 2 {
            return true;
        }
        match owner {
            Some(present) => {
                self.screensaver_probe = if present {
                    2
                } else {
                    1
                };
                present
            },
            None => false,
        }
    }

    /// The report on the component.
    pub fn doctor_lines(&self) -> (r: Vec<String>)
        ensures
            texts(r@) == self@.report(),
    {
        let mut out: Vec<String> = Vec::new();
        let first = match self.session {
            SessionKind::X11 => x11_protocol_line(),
            SessionKind::Wayland => match (&self.wayland_core, &self.wayland_display_name) {
                (Some(wl), Some(name)) => wayland_protocol_line(name.as_str(), wl.global_count()),
                (_, Some(name)) => degraded_wayland_protocol_line(name.as_str()),
                (_, None) => degraded_wayland_protocol_line("wayland"),
            },
        };
        out.push(first);
        let head = cat3("✓ GNOME 版本   : GNOME ", self.version.full.as_str(), " (");
        let limits = if self.version.is_47_plus() {
            "Eval 受限"
        } else {
            "Eval 可用"
        };
        out.push(cat3(head.as_str(), limits, ")"));
        let path = cat3("✓ 后端路径     : ", self.path.kind(), " (");
        out.push(cat3(path.as_str(), EXTENSION_ID, ")"));
        let mark = if self.screensaver_probe == 2 {
            "✓"
        } else {
            "⚠"
        };
        out.push(
            cat("✓ D-Bus 接口   : org.gnome.Shell ✓, DisplayConfig ✓, ScreenSaver ", mark),
        );
        out.push(owned("⚠ 窗口操作     : 受限（无 move/resize/workspace）"));
        assert(texts(out@) =~= self@.report());
        out
    }

    /// How well the component works, by a probe of the monitor configuration.
    pub fn health(&self, probe: Result<(), MutterError>) -> (r: ComponentHealth)
        ensures
            r@ == (match probe {
                Ok(_) => HealthView::Healthy,
                Err(e) => HealthView::Degraded("DisplayConfig unreachable: "@ + e@.message()),
            }),
    {
        match probe {
            Ok(_) => ComponentHealth::Healthy,
            Err(e) => {
                let m = e.message();
                ComponentHealth::Degraded(cat("DisplayConfig unreachable: ", m.as_str()))
            },
        }
    }

    /// What the component can do: handle windows and read the monitors.
    pub fn capabilities(&self) -> (r: BackendCapabilities)
        ensures
            r == (BackendCapabilities {
                window_management: true,
                workspace_management: false,
                monitor_layout: true,
                window_events: false,
                workspace_events: false,
                native_input: false,
                native_capture: false,
                virtual_desktops: false,
                effects_control: false,
            }),
    {
        BackendCapabilities {
            window_management: true,
            workspace_management: false,
            monitor_layout: true,
            window_events: false,
            workspace_events: false,
            native_input: false,
            native_capture: false,
            virtual_desktops: false,
            effects_control: false,
        }
    }

    /// What is asked of the channel for an operation on one window.
    pub fn window_op(&self, id: &WindowId, op: OpKind) -> (r: Result<
        WindowRequest,
        AgentShellError,
    >)
        ensures
            request_view(r) == op_request(self@.path, id@.native_id, op),
    {
        let nid = id.native_id.as_str();
        match &self.path {
            GnomePath::Eval(e) => {
                let made = match op {
                    OpKind::Focus => e.focus_script(nid),
                    OpKind::Close => e.close_script(nid),
                    OpKind::Minimize(b) => e.minimize_script(nid, b),
                    OpKind::Maximize(b) => e.maximize_script(nid, b),
                };
                match made {
                    Ok(s) => Ok(WindowRequest::Script(s)),
                    Err(x) => Err(x.to_shell_error()),
                }
            },
            GnomePath::Extension(_) => match parse_u32(nid) {
                Ok(n) => Ok(WindowRequest::Call(n, op)),
                Err(x) => Err(x.to_shell_error()),
            },
        }
    }

    /// What is asked of the channel to move a window; only the extension can.
    pub fn move_window(&self, id: &WindowId, x: i32, y: i32) -> (r: Result<
        WindowRequest,
        AgentShellError,
    >)
        ensures
            request_view(r) == move_request(self@.path, id@.native_id, x, y),
    {
        match &self.path {
            GnomePath::Eval(_) => Err(
                AgentShellError::NotImplemented(
                    owned("mutter: window move unavailable on Eval path"),
                ),
            ),
            GnomePath::Extension(_) => match parse_u32(id.native_id.as_str()) {
                Ok(n) => Ok(WindowRequest::Move(n, x, y)),
                Err(e) => Err(e.to_shell_error()),
            },
        }
    }

    /// Whether events can be subscribed to; only the extension sends any.
    pub fn subscribe(&self) -> (r: Result<(), AgentShellError>)
        ensures
            unit_view(r) == (match self@.path {
                GnomePath::Extension(_) => Ok::<(), ErrorView>(()),
                GnomePath::Eval(_) => Err::<(), ErrorView>(
                    ErrorView::NotImplemented(
                        "mutter: no event stream on Eval path (install extension for signals)"@,
                    ),
                ),
            }),
    {
        match &self.path {
            GnomePath::Extension(_) => Ok(()),
            GnomePath::Eval(_) => Err(
                AgentShellError::NotImplemented(
                    owned("mutter: no event stream on Eval path (install extension for signals)"),
                ),
            ),
        }
    }
}

impl WaylandCompositor for MutterCompositor {
    closed spec fn connection(&self) -> Option<WaylandDisplayServer> {
        self.wayland_core
    }

    fn display_server(&self) -> (r: &WaylandDisplayServer) {
        match &self.wayland_core {
            Some(wl) => wl,
            None => {
                assert(false);
                vstd::pervasive::unreached()
            },
        }
    }
}

/// A component has a connection exactly where it hands one out.
pub proof fn law_connection_is_handed_out(c: MutterCompositor)
    ensures
        c.connection() == c@.wayland_core,
{
}

} // verus!
