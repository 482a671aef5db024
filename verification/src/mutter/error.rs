//! Errors of the GNOME channels, and the names by which the channels are found.

use vstd::prelude::*;

use crate::mutter::version::{GnomeMajor, GnomeVersion};
use crate::text::{cat, cat3};
use crate::types::{AgentShellError, ErrorView};

verus! {

/// The shell's name on the message bus.
pub const SHELL_SERVICE: &'static str = "org.gnome.Shell";

/// The shell's root object.
pub const SHELL_PATH: &'static str = "/org/gnome/Shell";

/// The interface that the extension registers.
pub const AGENTSHELL_IFACE: &'static str = "org.gnome.Shell.AgentShell";

/// The object that the extension exports.
pub const AGENTSHELL_PATH: &'static str = "/org/gnome/Shell/AgentShell";

/// The name of the extension.
pub const EXTENSION_ID: &'static str = "agent-shell-bridge@tsic.top";

/// The name of the monitor configuration on the message bus.
pub const DISPLAY_CONFIG_SERVICE: &'static str = "org.gnome.Mutter.DisplayConfig";

/// The object of the monitor configuration.
pub const DISPLAY_CONFIG_PATH: &'static str = "/org/gnome/Mutter/DisplayConfig";

/// The name that the daemon owns on the bus; the extension serves nobody else.
pub const DAEMON_BUS_NAME: &'static str = "org.agentshell.Daemon";

/// What to do where evaluation is off, before GNOME 47.
pub const EVAL_DISABLED_HINT_PRE47: &'static str = "org.gnome.Shell.Eval unavailable (enable via: gsettings set org.gnome.shell developer-tools true)";

/// What to do where evaluation is off, from GNOME 47 on.
pub const EVAL_DISABLED_HINT_47PLUS: &'static str = "org.gnome.Shell.Eval unavailable (GNOME 47+ removed the developer-tools key; install & enable the Shell Extension: agent-shell-bridge@tsic.top)";

/// What to do where evaluation is off.
pub open spec fn disabled_hint(major: GnomeMajor) -> Seq<char> {
    match major {
        GnomeMajor::Pre47 => EVAL_DISABLED_HINT_PRE47@,
        GnomeMajor::V47Plus => EVAL_DISABLED_HINT_47PLUS@,
    }
}

/// What to do where evaluation is off.
pub fn eval_disabled_hint(version: &GnomeVersion) -> (r: &'static str)
    ensures
        r@ == disabled_hint(version@.major),
{
    if version.is_47_plus() {
        EVAL_DISABLED_HINT_47PLUS
    } else {
        EVAL_DISABLED_HINT_PRE47
    }
}

/// What can go wrong on the way to GNOME.
#[derive(Debug)]
pub enum MutterError {
    /// A script was not evaluated.
    Eval(String),
    /// The extension is missing, or a call of it failed.
    Extension(String),
    /// There is no connection to the display server.
    Wayland(String),
    /// A call of the monitor configuration failed.
    DisplayConfig(String),
    /// The version is missing or was not recognised.
    Version(String),
}

/// What a GNOME error says.
#[verifier::ext_equal]
pub enum MutterErrorView {
    Eval(Seq<char>),
    Extension(Seq<char>),
    Wayland(Seq<char>),
    DisplayConfig(Seq<char>),
    Version(Seq<char>),
}

impl View for MutterError {
    type V = MutterErrorView;

    open spec fn view(&self) -> MutterErrorView {
        match *self {
            MutterError::Eval(m) => MutterErrorView::Eval(m@),
            MutterError::Extension(m) => MutterErrorView::Extension(m@),
            MutterError::Wayland(m) => MutterErrorView::Wayland(m@),
            MutterError::DisplayConfig(m) => MutterErrorView::DisplayConfig(m@),
            MutterError::Version(m) => MutterErrorView::Version(m@),
        }
    }
}

impl MutterErrorView {
    /// The text shown to people.
    pub open spec fn message(self) -> Seq<char> {
        match self {
            MutterErrorView::Eval(m) => "gnome eval failed: "@ + m,
            MutterErrorView::Extension(m) => "shell extension not available ("@ + EXTENSION_ID@
                + "): "@ + m,
            MutterErrorView::Wayland(m) => "wayland connect failed: "@ + m,
            MutterErrorView::DisplayConfig(m) => "display config error: "@ + m,
            MutterErrorView::Version(m) => "gnome version probe failed: "@ + m,
        }
    }

    /// The component error that stands for this one.
    pub open spec fn shell_error(self) -> ErrorView {
        match self {
            MutterErrorView::Eval(m) => ErrorView::DBus("gnome eval: "@ + m),
            MutterErrorView::Extension(m) => ErrorView::BackendUnavailable(
                "gnome extension "@ + EXTENSION_ID@ + ": "@ + m,
            ),
            MutterErrorView::DisplayConfig(m) => ErrorView::DBus("mutter display config: "@ + m),
            MutterErrorView::Wayland(m) => ErrorView::BackendUnavailable("mutter wayland: "@ + m),
            MutterErrorView::Version(m) => ErrorView::BackendUnavailable("gnome version: "@ + m),
        }
    }
}

impl MutterError {
    /// The text shown to people.
    pub fn message(&self) -> (r: String)
        ensures
            r@ == self@.message(),
    {
        match self {
            MutterError::Eval(m) => cat("gnome eval failed: ", m.as_str()),
            MutterError::Extension(m) => {
                let head = cat3("shell extension not available (", EXTENSION_ID, "): ");
                cat(head.as_str(), m.as_str())
            },
            MutterError::Wayland(m) => cat("wayland connect failed: ", m.as_str()),
            MutterError::DisplayConfig(m) => cat("display config error: ", m.as_str()),
            MutterError::Version(m) => cat("gnome version probe failed: ", m.as_str()),
        }
    }

    /// The component error that stands for this one.
    pub fn to_shell_error(&self) -> (r: AgentShellError)
        ensures
            r@ == self@.shell_error(),
    {
        match self {
            MutterError::Eval(m) => AgentShellError::DBus(cat("gnome eval: ", m.as_str())),
            MutterError::Extension(m) => {
                let head = cat3("gnome extension ", EXTENSION_ID, ": ");
                AgentShellError::BackendUnavailable(cat(head.as_str(), m.as_str()))
            },
            MutterError::DisplayConfig(m) => AgentShellError::DBus(
                cat("mutter display config: ", m.as_str()),
            ),
            MutterError::Wayland(m) => AgentShellError::BackendUnavailable(
                cat("mutter wayland: ", m.as_str()),
            ),
            MutterError::Version(m) => AgentShellError::BackendUnavailable(
                cat("gnome version: ", m.as_str()),
            ),
        }
    }
}

impl From<MutterError> for AgentShellError {
    fn from(e: MutterError) -> (r: AgentShellError)
        ensures
            r@ == e@.shell_error(),
    {
        e.to_shell_error()
    }
}

impl vstd::std_specs::convert::FromSpecImpl<MutterError> for AgentShellError {
    open spec fn obeys_from_spec() -> bool {
        false
    }

    open spec fn from_spec(e: MutterError) -> AgentShellError {
        arbitrary()
    }
}

/// The view of a result whose error is a GNOME error.
pub open spec fn gnome_result<T: View>(r: Result<T, MutterError>) -> Result<T::V, MutterErrorView> {
    match r {
        Ok(x) => Ok(x@),
        Err(e) => Err(e@),
    }
}

} // verus!
