//! Errors of the KWin channels.

use vstd::prelude::*;
use vstd::string::*;

use crate::text::{cat, cat3, dec, dec_of, owned};
use crate::types::{AgentShellError, ErrorView};

verus! {

/// What can go wrong on the way to KWin.
#[derive(Debug)]
pub enum KWinError {
    /// A private protocol could not be bound: not advertised, too old, or
    /// already taken by another client.
    ProtocolBind { interface: &'static str, reason: String },
    /// Input was to be injected before the purpose was declared.
    FakeInputNotAuthenticated,
    /// A scripting call on the message bus failed.
    Scripting(String),
    /// KWin runs, but offers no scripting.
    ScriptingUnavailable(String),
    /// A script did not send its result in time.
    ResponseTimeout { script: String, timeout_secs: u64 },
    /// A script sent something that is no valid result.
    InvalidScriptOutput(String),
}

/// What a KWin error says.
#[verifier::ext_equal]
pub enum KWinErrorView {
    ProtocolBind { interface: Seq<char>, reason: Seq<char> },
    FakeInputNotAuthenticated,
    Scripting(Seq<char>),
    ScriptingUnavailable(Seq<char>),
    ResponseTimeout { script: Seq<char>, timeout_secs: u64 },
    InvalidScriptOutput(Seq<char>),
}

impl View for KWinError {
    type V = KWinErrorView;

    open spec fn view(&self) -> KWinErrorView {
        match *self {
            KWinError::ProtocolBind { interface, reason } => KWinErrorView::ProtocolBind {
                interface: interface@,
                reason: reason@,
            },
            KWinError::FakeInputNotAuthenticated => KWinErrorView::FakeInputNotAuthenticated,
            KWinError::Scripting(m) => KWinErrorView::Scripting(m@),
            KWinError::ScriptingUnavailable(m) => KWinErrorView::ScriptingUnavailable(m@),
            KWinError::ResponseTimeout { script, timeout_secs } => KWinErrorView::ResponseTimeout {
                script: script@,
                timeout_secs,
            },
            KWinError::InvalidScriptOutput(m) => KWinErrorView::InvalidScriptOutput(m@),
        }
    }
}

impl KWinErrorView {
    /// The text shown to people.
    pub open spec fn message(self) -> Seq<char> {
        match self {
            KWinErrorView::ProtocolBind { interface, reason } => "KWin protocol bind failed ("@
                + interface + "): "@ + reason,
            KWinErrorView::FakeInputNotAuthenticated => "fake_input not authenticated"@,
            KWinErrorView::Scripting(m) => "KWin scripting error: "@ + m,
            KWinErrorView::ScriptingUnavailable(m) => "KWin scripting unavailable: "@ + m,
            KWinErrorView::ResponseTimeout { script, timeout_secs } =>
                "KWin script response timeout after "@ + dec(timeout_secs as nat) + "s: "@ + script,
            KWinErrorView::InvalidScriptOutput(m) => "KWin script returned invalid JSON: "@ + m,
        }
    }

    /// The component error that stands for this one.
    pub open spec fn shell_error(self) -> ErrorView {
        match self {
            KWinErrorView::ProtocolBind { interface, reason } => ErrorView::BackendUnavailable(
                "kwin "@ + interface + ": "@ + reason,
            ),
            KWinErrorView::FakeInputNotAuthenticated => ErrorView::Permission(
                "kwin fake_input not authenticated"@,
            ),
            KWinErrorView::Scripting(m) => ErrorView::DBus("kwin scripting: "@ + m),
            KWinErrorView::ScriptingUnavailable(m) => ErrorView::DBus("kwin scripting: "@ + m),
            KWinErrorView::ResponseTimeout { script, timeout_secs } => ErrorView::Timeout(
                "kwin script `"@ + script + "` no response in "@ + dec(timeout_secs as nat) + "s"@,
            ),
            KWinErrorView::InvalidScriptOutput(m) => ErrorView::DBus("kwin script output: "@ + m),
        }
    }
}

impl KWinError {
    /// The text shown to people.
    pub fn message(&self) -> (r: String)
        ensures
            r@ == self@.message(),
    {
        match self {
            KWinError::ProtocolBind { interface, reason } => {
                let mut out = cat3("KWin protocol bind failed (", interface, "): ");
                out.append(reason.as_str());
                out
            },
            KWinError::FakeInputNotAuthenticated => owned("fake_input not authenticated"),
            KWinError::Scripting(m) => cat("KWin scripting error: ", m.as_str()),
            KWinError::ScriptingUnavailable(m) => cat("KWin scripting unavailable: ", m.as_str()),
            KWinError::ResponseTimeout { script, timeout_secs } => {
                let secs = dec_of(*timeout_secs);
                let mut out = cat3("KWin script response timeout after ", secs.as_str(), "s: ");
                out.append(script.as_str());
                out
            },
            KWinError::InvalidScriptOutput(m) => cat(
                "KWin script returned invalid JSON: ",
                m.as_str(),
            ),
        }
    }

    /// The component error that stands for this one.
    pub fn to_shell_error(&self) -> (r: AgentShellError)
        ensures
            r@ == self@.shell_error(),
    {
        match self {
            KWinError::ProtocolBind { interface, reason } => {
                let mut out = cat3("kwin ", interface, ": ");
                out.append(reason.as_str());
                AgentShellError::BackendUnavailable(out)
            },
            KWinError::FakeInputNotAuthenticated => AgentShellError::Permission(
                owned("kwin fake_input not authenticated"),
            ),
            KWinError::Scripting(m) => AgentShellError::DBus(cat("kwin scripting: ", m.as_str())),
            KWinError::ScriptingUnavailable(m) => AgentShellError::DBus(
                cat("kwin scripting: ", m.as_str()),
            ),
            KWinError::ResponseTimeout { script, timeout_secs } => {
                let secs = dec_of(*timeout_secs);
                let mut out = cat3("kwin script `", script.as_str(), "` no response in ");
                out.append(secs.as_str());
                out.append("s");
                AgentShellError::Timeout(out)
            },
            KWinError::InvalidScriptOutput(m) => AgentShellError::DBus(
                cat("kwin script output: ", m.as_str()),
            ),
        }
    }

    /// A component error as an error of the scripting channel; its text stays.
    pub fn from_shell_error(e: &AgentShellError) -> (r: KWinError)
        ensures
            r@ == KWinErrorView::Scripting(e@.message()),
    {
        KWinError::Scripting(e.message())
    }
}

impl From<KWinError> for AgentShellError {
    fn from(e: KWinError) -> (r: AgentShellError)
        ensures
            r@ == e@.shell_error(),
    {
        e.to_shell_error()
    }
}

impl vstd::std_specs::convert::FromSpecImpl<KWinError> for AgentShellError {
    open spec fn obeys_from_spec() -> bool {
        false
    }

    open spec fn from_spec(e: KWinError) -> AgentShellError {
        arbitrary()
    }
}

impl From<AgentShellError> for KWinError {
    fn from(e: AgentShellError) -> (r: KWinError)
        ensures
            r@ == KWinErrorView::Scripting(e@.message()),
    {
        KWinError::from_shell_error(&e)
    }
}

impl vstd::std_specs::convert::FromSpecImpl<AgentShellError> for KWinError {
    open spec fn obeys_from_spec() -> bool {
        false
    }

    open spec fn from_spec(e: AgentShellError) -> KWinError {
        arbitrary()
    }
}

} // verus!
