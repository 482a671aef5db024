//! The life of the resident event script.

use vstd::prelude::*;

use crate::kwin::dbus_bridge::SCRIPT_TIMEOUT_SECS;
use crate::kwin::error::KWinError;
use crate::kwin::rendering::law_plain_query_is_rendered;
use crate::kwin::scripts::{template, ScriptTemplate};

verus! {

/// Pause between two probes of the scripting object, in milliseconds.
pub const PROBE_INTERVAL_MS: u64 = 200;

/// Pause after the start of the script, in milliseconds.
pub const START_GRACE_MS: u64 = 300;

/// What to do after a probe of the scripting object.
#[derive(Clone, Copy, Debug, PartialEq, Eq, Structural)]
pub enum ProbeStep {
    /// Load the script.
    Load,
    /// Pause and probe again.
    Retry,
    /// Give up with the error of the probe.
    GiveUp,
}

/// What to do after a probe: a failed one is repeated as long as another pause
/// ends before the deadline. Times are in milliseconds on one clock.
pub fn after_probe(ready: bool, now: u64, deadline: u64) -> (r: ProbeStep)
    ensures
        r == (if ready {
            ProbeStep::Load
        } else if now + PROBE_INTERVAL_MS <= deadline {
            ProbeStep::Retry
        } else {
            ProbeStep::GiveUp
        }),
{
    if ready {
        ProbeStep::Load
    } else if now <= deadline && deadline - now >= PROBE_INTERVAL_MS {
        ProbeStep::Retry
    } else {
        ProbeStep::GiveUp
    }
}

/// The deadline for probing that starts now.
pub fn probe_deadline(now: u64) -> (r: u64)
    requires
        now + SCRIPT_TIMEOUT_SECS * 1000 <= u64::MAX,
    ensures
        r == now + SCRIPT_TIMEOUT_SECS * 1000,
{
    now + SCRIPT_TIMEOUT_SECS * 1000
}

/// The text of the resident script.
pub fn event_script(v6: bool) -> (r: Result<String, KWinError>)
    ensures
        r matches Ok(s) && s@ == template(v6, ScriptTemplate::EventMonitor),
{
    proof {
        law_plain_query_is_rendered(v6, ScriptTemplate::EventMonitor);
    }
    let none: [(&str, crate::json::Json); 0] = [];
    assert(none@ =~= Seq::<(&str, crate::json::Json)>::empty());
    ScriptTemplate::EventMonitor.render(v6, none.as_slice())
}

/// A resident script that was started.
#[derive(Debug)]
pub struct EventScriptHandle {
    object_path: String,
    running: bool,
}

impl EventScriptHandle {
    /// The object path of the script.
    pub closed spec fn path(self) -> Seq<char> {
        self.object_path@
    }

    /// Whether the script runs.
    pub closed spec fn is_live(self) -> bool {
        self.running
    }

    /// A script that was just started under an object path.
    pub fn from_parts(object_path: String, running: bool) -> (r: EventScriptHandle)
        ensures
            r.path() == object_path@,
            r.is_live() == running,
    {
        EventScriptHandle { object_path, running }
    }

    /// The object path of the script.
    pub fn object_path(&self) -> (r: &str)
        ensures
            r@ == self.path(),
    {
        self.object_path.as_str()
    }

    /// Whether the script runs.
    pub fn is_running(&self) -> (r: bool)
        ensures
            r == self.is_live(),
    {
        self.running
    }

    /// Marks the script as stopped and tells whether it has to be unloaded: the
    /// first time only.
    pub fn stop(&mut self) -> (r: bool)
        ensures
            r == old(self).is_live(),
            !final(self).is_live(),
            final(self).path() == old(self).path(),
    {
        let was = self.running;
        self.running = false;
        was
    }
}

} // verus!
