//! The bridge between the message bus and KWin's scripting.
//!
//! A script has no return value. It sends its result to a service of ours, with
//! the identifier of the request in it, and the result is handed to whoever
//! waits for that identifier. Pushes without an identifier are events.

use vstd::prelude::*;
use vstd::string::*;

use crate::json::{parse, parsed, print, printed, Json};
use crate::kwin::error::{KWinError, KWinErrorView};
use crate::kwin::scripts::{script_view, REQ_ID_TOKEN};
use crate::text::{cat, cat3, contains, has_text, owned, replace, replaced, same};
use crate::types::{
    opt_view, DesktopEnvironment, DesktopEvent, EventSource, EventView, IdView, WindowId,
};

verus! {

/// How long to wait for the result of a script, in seconds.
pub const SCRIPT_TIMEOUT_SECS: u64 = 5;

/// Bus name of KWin.
pub const SCRIPTING_SERVICE: &'static str = "org.kde.KWin";

/// Object path of the scripting interface.
pub const SCRIPTING_PATH: &'static str = "/Scripting";

/// Bus name of the response service.
pub const RESPONSE_BUS_NAME: &'static str = "com.agent_shell.Response";

// ---------------------------------------------------------------------------
// Probing
// ---------------------------------------------------------------------------
/// The declaration by which an object announces the scripting interface.
pub const SCRIPTING_DECLARATION: &'static str = "<interface name=\"org.kde.kwin.Scripting\"";

/// Whether an introspection text announces the scripting interface. Only the
/// declaration itself counts, not a longer name or another mention.
pub fn scripting_interface_advertised(xml: &str) -> (r: bool)
    ensures
        r == contains(xml@, SCRIPTING_DECLARATION@),
{
    has_text(xml, SCRIPTING_DECLARATION)
}

/// What came of asking KWin for its scripting object.
pub enum ProbeReply {
    /// The proxy could not be built, with the reason.
    NoProxy(String),
    /// KWin does not answer, with the reason.
    Unreachable(String),
    /// KWin answers, but has no such object, with the reason.
    NoObject(String),
    /// The introspection text of the object.
    Xml(String),
}

/// The report on a scripting object that did not answer.
pub open spec fn unreachable_text(reason: Seq<char>) -> Seq<char> {
    "scripting probe: "@ + SCRIPTING_SERVICE@ + SCRIPTING_PATH@ + " unreachable: "@ + reason
        + " (KWin may still be starting; retry later)"@
}

/// The report on an object without the scripting interface.
pub open spec fn not_advertised_text() -> Seq<char> {
    "scripting probe: org.kde.kwin.Scripting interface not advertised at "@ + SCRIPTING_PATH@
        + " (introspection returned no such interface)"@
}

/// Scripting is there where the interface is announced. It is missing for sure
/// where KWin answers without it; otherwise it may only be early.
pub open spec fn probe_outcome(reply: ProbeReply) -> Result<(), KWinErrorView> {
    match reply {
        ProbeReply::NoProxy(e) => Err(KWinErrorView::Scripting("scripting probe build: "@ + e@)),
        ProbeReply::Unreachable(e) => Err(KWinErrorView::Scripting(unreachable_text(e@))),
        ProbeReply::NoObject(e) => Err(KWinErrorView::ScriptingUnavailable(unreachable_text(e@))),
        ProbeReply::Xml(xml) => if contains(xml@, SCRIPTING_DECLARATION@) {
            Ok(())
        } else {
            Err(KWinErrorView::ScriptingUnavailable(not_advertised_text()))
        },
    }
}

/// The view of a probe result.
pub open spec fn probe_view(r: Result<(), KWinError>) -> Result<(), KWinErrorView> {
    match r {
        Ok(_) => Ok(()),
        Err(e) => Err(e@),
    }
}

fn unreachable(reason: &str) -> (r: String)
    ensures
        r@ == unreachable_text(reason@),
{
    let mut out = cat3("scripting probe: ", SCRIPTING_SERVICE, SCRIPTING_PATH);
    out.append(" unreachable: ");
    out.append(reason);
    out.append(" (KWin may still be starting; retry later)");
    out
}

/// What a probe of the scripting object means.
pub fn probe_scripting(reply: ProbeReply) -> (r: Result<(), KWinError>)
    ensures
        probe_view(r) == probe_outcome(reply),
{
    match reply {
        ProbeReply::NoProxy(e) => Err(
            KWinError::Scripting(cat("scripting probe build: ", e.as_str())),
        ),
        ProbeReply::Unreachable(e) => Err(KWinError::Scripting(unreachable(e.as_str()))),
        ProbeReply::NoObject(e) => Err(KWinError::ScriptingUnavailable(unreachable(e.as_str()))),
        ProbeReply::Xml(xml) => if scripting_interface_advertised(xml.as_str()) {
            Ok(())
        } else {
            Err(
                KWinError::ScriptingUnavailable(
                    cat3(
                        "scripting probe: org.kde.kwin.Scripting interface not advertised at ",
                        SCRIPTING_PATH,
                        " (introspection returned no such interface)",
                    ),
                ),
            )
        },
    }
}

// ---------------------------------------------------------------------------
// Routing of results
// ---------------------------------------------------------------------------
/// Who waits for which request. A waiter is a slot of the caller's choosing.
pub struct ResponseRouter {
    pub waiters: Vec<(String, u64)>,
}

/// The slot that waits for a request.
pub open spec fn slot_of(waiters: Seq<(String, u64)>, req: Seq<char>) -> Option<u64>
    decreases waiters.len(),
{
    if waiters.len() == 0 {
        None
    } else if waiters[0].0@ == req {
        Some(waiters[0].1)
    } else {
        slot_of(waiters.skip(1), req)
    }
}

/// No request occurs twice.
pub open spec fn distinct_requests(waiters: Seq<(String, u64)>) -> bool {
    forall|i: int, j: int|
        0 <= i < j < waiters.len() ==> (#[trigger] waiters[i]).0@ != (#[trigger] waiters[j]).0@
}

proof fn lemma_slot_at(waiters: Seq<(String, u64)>, i: int)
    requires
        distinct_requests(waiters),
        0 <= i < waiters.len(),
    ensures
        slot_of(waiters, waiters[i].0@) == Some(waiters[i].1),
    decreases waiters.len(),
{
    if i > 0 {
        assert(waiters[0].0@ != waiters[i].0@);
        assert(waiters.skip(1)[i - 1] == waiters[i]);
        assert forall|a: int, b: int| 0 <= a < b < waiters.skip(1).len() implies (
        #[trigger] waiters.skip(1)[a]).0@ != (#[trigger] waiters.skip(1)[b]).0@ by {
            assert(waiters.skip(1)[a] == waiters[a + 1]);
            assert(waiters.skip(1)[b] == waiters[b + 1]);
        }
        lemma_slot_at(waiters.skip(1), i - 1);
    }
}

proof fn lemma_slot_none(waiters: Seq<(String, u64)>, req: Seq<char>)
    ensures
        slot_of(waiters, req) is None <==> forall|i: int|
            0 <= i < waiters.len() ==> (#[trigger] waiters[i]).0@ != req,
    decreases waiters.len(),
{
    if waiters.len() > 0 {
        lemma_slot_none(waiters.skip(1), req);
        if waiters[0].0@ != req {
            if slot_of(waiters, req) is None {
                assert forall|i: int| 0 <= i < waiters.len() implies (#[trigger] waiters[i]).0@
                    != req by {
                    if i > 0 {
                        assert(waiters.skip(1)[i - 1] == waiters[i]);
                    }
                }
            } else {
                let i = choose|i: int|
                    0 <= i < waiters.skip(1).len() && (#[trigger] waiters.skip(1)[i]).0@ == req;
                assert(waiters.skip(1)[i] == waiters[i + 1]);
            }
        }
    }
}

/// Two tables that agree on what they hold agree on every request.
proof fn lemma_slot_ext(a: Seq<(String, u64)>, b: Seq<(String, u64)>, req: Seq<char>)
    requires
        distinct_requests(a),
        distinct_requests(b),
        forall|i: int|
            0 <= i < a.len() && (#[trigger] a[i]).0@ == req ==> exists|j: int|
                0 <= j < b.len() && (#[trigger] b[j]).0@ == req && b[j].1 == a[i].1,
        forall|j: int|
            0 <= j < b.len() && (#[trigger] b[j]).0@ == req ==> exists|i: int|
                0 <= i < a.len() && (#[trigger] a[i]).0@ == req && a[i].1 == b[j].1,
    ensures
        slot_of(a, req) == slot_of(b, req),
{
    lemma_slot_none(a, req);
    lemma_slot_none(b, req);
    if slot_of(a, req) is Some {
        let i = choose|i: int| 0 <= i < a.len() && (#[trigger] a[i]).0@ == req;
        lemma_slot_at(a, i);
        let j = choose|j: int|
            0 <= j < b.len() && (#[trigger] b[j]).0@ == req && b[j].1 == a[i].1;
        lemma_slot_at(b, j);
    }
}

impl ResponseRouter {
    /// No request is waited for twice.
    pub open spec fn wf(self) -> bool {
        distinct_requests(self.waiters@)
    }

    /// The slot that waits for a request.
    pub open spec fn slot(self, req: Seq<char>) -> Option<u64> {
        slot_of(self.waiters@, req)
    }

    /// Nobody waits.
    pub fn new() -> (r: ResponseRouter)
        ensures
            r.wf(),
            r.waiters@.len() == 0,
            forall|req: Seq<char>| r.slot(req) is None,
    {
        ResponseRouter { waiters: Vec::new() }
    }

    fn position(&self, req_id: &str) -> (r: Option<usize>)
        ensures
            match r {
                Some(i) => i < self.waiters@.len() && self.waiters@[i as int].0@ == req_id@,
                None => forall|i: int|
                    0 <= i < self.waiters@.len() ==> (#[trigger] self.waiters@[i]).0@ != req_id@,
            },
    {
        let mut i: usize = 0;
        while i < self.waiters.len()
            invariant
                i <= self.waiters.len(),
                forall|j: int| 0 <= j < i ==> (#[trigger] self.waiters@[j]).0@ != req_id@,
            decreases self.waiters.len() - i,
        {
            if same(self.waiters[i].0.as_str(), req_id) {
                return Some(i);
            }
            i = i + 1;
        }
        None
    }

    /// Lets `slot` wait for a request. A slot that waited for the same request
    /// gives way.
    pub fn register(&mut self, req_id: String, slot: u64)
        requires
            old(self).wf(),
        ensures
            final(self).wf(),
            final(self).slot(req_id@) == Some(slot),
            forall|k: Seq<char>|
                k != req_id@ ==> #[trigger] final(self).slot(k) == old(self).slot(k),
    {
        let ghost req = req_id@;
        let ghost before = self.waiters@;
        match self.position(req_id.as_str()) {
            Some(i) => {
                self.waiters.set(i, (req_id, slot));
                proof {
                    lemma_slot_at(self.waiters@, i as int);
                }
            },
            None => {
                self.waiters.push((req_id, slot));
                proof {
                    lemma_slot_at(self.waiters@, self.waiters@.len() - 1);
                }
            },
        }
        let ghost after = self.waiters@;
        proof {
            assert forall|k: Seq<char>| k != req implies #[trigger] slot_of(after, k) == slot_of(
                before,
                k,
            ) by {
                assert forall|i: int|
                    0 <= i < after.len() && (#[trigger] after[i]).0@ == k implies exists|j: int|
                    0 <= j < before.len() && (#[trigger] before[j]).0@ == k && before[j].1
                        == after[i].1 by {
                    assert(before[i].0@ == k);
                }
                assert forall|i: int|
                    0 <= i < before.len() && (#[trigger] before[i]).0@ == k implies exists|j: int|
                    0 <= j < after.len() && (#[trigger] after[j]).0@ == k && after[j].1
                        == before[i].1 by {
                    assert(after[i].0@ == k);
                }
                lemma_slot_ext(after, before, k);
            }
        }
    }

    fn take(&mut self, req_id: &str) -> (r: Option<u64>)
        requires
            old(self).wf(),
        ensures
            final(self).wf(),
            r == old(self).slot(req_id@),
            final(self).slot(req_id@) is None,
            forall|k: Seq<char>|
                k != req_id@ ==> #[trigger] final(self).slot(k) == old(self).slot(k),
    {
        let ghost before = self.waiters@;
        match self.position(req_id) {
            Some(i) => {
                proof {
                    lemma_slot_at(before, i as int);
                }
                let gone = self.waiters.remove(i);
                let ghost after = self.waiters@;
                proof {
                    assert forall|a: int, b: int| 0 <= a < b < after.len() implies (
                    #[trigger] after[a]).0@ != (#[trigger] after[b]).0@ by {
                        let x = if a < i {
                            a
                        } else {
                            a + 1
                        };
                        let y = if b < i {
                            b
                        } else {
                            b + 1
                        };
                        assert(after[a] == before[x] && after[b] == before[y]);
                    }
                    assert forall|a: int| 0 <= a < after.len() implies (#[trigger] after[a]).0@
                        != req_id@ by {
                        if a < i {
                            assert(after[a] == before[a]);
                        } else {
                            assert(after[a] == before[a + 1]);
                        }
                    }
                    lemma_slot_none(after, req_id@);
                    assert forall|k: Seq<char>| k != req_id@ implies #[trigger] slot_of(after, k)
                        == slot_of(before, k) by {
                        assert forall|a: int|
                            0 <= a < after.len() && (#[trigger] after[a]).0@
                                == k implies exists|j: int|
                            0 <= j < before.len() && (#[trigger] before[j]).0@ == k && before[j].1
                                == after[a].1 by {
                            let j = if a < i {
                                a
                            } else {
                                a + 1
                            };
                            assert(before[j] == after[a]);
                        }
                        assert forall|j: int|
                            0 <= j < before.len() && (#[trigger] before[j]).0@
                                == k implies exists|a: int|
                            0 <= a < after.len() && (#[trigger] after[a]).0@ == k && after[a].1
                                == before[j].1 by {
                            let a = if j < i {
                                j
                            } else {
                                j - 1
                            };
                            assert(after[a] == before[j]);
                        }
                        lemma_slot_ext(after, before, k);
                    }
                }
                Some(gone.1)
            },
            None => {
                proof {
                    lemma_slot_none(before, req_id@);
                }
                None
            },
        }
    }

    /// Takes out the slot that waits for a request, to hand it the result. A
    /// result that nobody waits for is dropped.
    pub fn dispatch(&mut self, req_id: &str) -> (r: Option<u64>)
        requires
            old(self).wf(),
        ensures
            final(self).wf(),
            r == old(self).slot(req_id@),
            final(self).slot(req_id@) is None,
            forall|k: Seq<char>|
                k != req_id@ ==> #[trigger] final(self).slot(k) == old(self).slot(k),
    {
        self.take(req_id)
    }

    /// Forgets a request that is no longer waited for.
    pub fn abandon(&mut self, req_id: &str)
        requires
            old(self).wf(),
        ensures
            final(self).wf(),
            final(self).slot(req_id@) is None,
            forall|k: Seq<char>|
                k != req_id@ ==> #[trigger] final(self).slot(k) == old(self).slot(k),
    {
        let _ = self.take(req_id);
    }

    /// Whether nobody waits.
    pub fn is_empty(&self) -> (r: bool)
        ensures
            r == (self.waiters@.len() == 0),
    {
        self.waiters.len() == 0
    }
}

/// Something that arrived at the response service.
#[derive(Debug)]
pub enum Incoming {
    /// No JSON, with the reason; it is dropped.
    NotJson(String),
    /// The result of the request with this identifier.
    Result(String),
    /// An event.
    Event(Json),
}

/// What a parsed payload is: with a textual `req` member the result of that
/// request, else an event.
pub open spec fn incoming(payload: Seq<char>, r: Incoming) -> bool {
    match parsed(payload) {
        Err(e) => r matches Incoming::NotJson(m) && m@ == e,
        Ok(v) => match v.str_of("req"@) {
            Some(req) => r matches Incoming::Result(m) && m@ == req,
            None => r == Incoming::Event(v),
        },
    }
}

/// What a payload is, once it is parsed.
pub fn classify_value(value: Json) -> (r: Incoming)
    ensures
        match value.str_of("req"@) {
            Some(req) => r matches Incoming::Result(m) && m@ == req,
            None => r == Incoming::Event(value),
        },
{
    match value.get_str("req") {
        Some(req) => Incoming::Result(owned(req)),
        None => Incoming::Event(value),
    }
}

/// What a payload is that a script sent.
pub fn classify_payload(payload: &str) -> (r: Incoming)
    ensures
        incoming(payload@, r),
{
    match parse(payload) {
        Ok(v) => classify_value(v),
        Err(e) => Incoming::NotJson(e),
    }
}

// ---------------------------------------------------------------------------
// Running a script
// ---------------------------------------------------------------------------
/// The script with the identifier of the request in its place.
pub fn with_request_id(js: &str, req_id: &str) -> (r: String)
    ensures
        r@ == replace(js@, REQ_ID_TOKEN@, req_id@),
{
    proof {
        reveal_strlit("__AGENT_SHELL_REQ_ID__");
    }
    replaced(js, REQ_ID_TOKEN, req_id)
}

/// The text of the result in a reply that was parsed. A reply to another
/// request is an error; a reply without a result stands for null.
pub open spec fn result_text(script: Seq<char>, req: Seq<char>, v: Json) -> Result<
    Seq<char>,
    KWinErrorView,
> {
    if v.str_of("req"@) == Some(req) {
        Ok(
            printed(
                match v.at("result"@) {
                    Some(j) => j,
                    None => Json::Null,
                },
            ),
        )
    } else {
        Err(KWinErrorView::InvalidScriptOutput(script + ": response id mismatch"@))
    }
}

/// The text of the result in a reply.
pub open spec fn answer(script: Seq<char>, req: Seq<char>, payload: Seq<char>) -> Result<
    Seq<char>,
    KWinErrorView,
> {
    match parsed(payload) {
        Err(e) => Err(KWinErrorView::InvalidScriptOutput(script + ": "@ + e)),
        Ok(v) => result_text(script, req, v),
    }
}

/// The text of the result in a reply that was parsed.
pub fn result_of(script: &str, req_id: &str, v: &Json) -> (r: Result<String, KWinError>)
    ensures
        script_view(r) == result_text(script@, req_id@, *v),
{
    let mine = match v.get_str("req") {
        Some(req) => same(req, req_id),
        None => false,
    };
    if !mine {
        return Err(KWinError::InvalidScriptOutput(cat(script, ": response id mismatch")));
    }
    match v.get("result") {
        Some(j) => Ok(print(j)),
        None => Ok(print(&Json::Null)),
    }
}

/// The text of the result in a reply.
pub fn read_answer(script: &str, req_id: &str, payload: &str) -> (r: Result<String, KWinError>)
    ensures
        script_view(r) == answer(script@, req_id@, payload@),
{
    match parse(payload) {
        Ok(v) => result_of(script, req_id, &v),
        Err(e) => Err(KWinError::InvalidScriptOutput(cat3(script, ": ", e.as_str()))),
    }
}

/// The value of a result text.
pub fn read_result(script: &str, raw: &str) -> (r: Result<Json, KWinError>)
    ensures
        match parsed(raw@) {
            Ok(v) => r matches Ok(j) && j == v,
            Err(e) => r matches Err(x) && x@ == KWinErrorView::InvalidScriptOutput(
                script@ + ": "@ + e,
            ),
        },
{
    match parse(raw) {
        Ok(v) => Ok(v),
        Err(e) => Err(KWinError::InvalidScriptOutput(cat3(script, ": ", e.as_str()))),
    }
}

/// How far the run of a script has come.
#[derive(Debug)]
pub enum RunPhase {
    /// The script is being loaded.
    Loading,
    /// The loaded script is being looked up.
    Opening,
    /// The script is being started.
    Starting,
    /// The script runs, and its reply is waited for.
    Waiting,
    /// The reply has come, and the script is being unloaded.
    Replied(String),
    /// No reply came in time, and the script is being unloaded.
    Expired,
    /// The script could not be started, and is being unloaded.
    NotStarted(String),
    /// Nothing is left to do.
    Done,
}

/// What happened to the script.
#[derive(Debug)]
pub enum RunEvent {
    ProxyFailed(String),
    LoadFailed(String),
    Loaded,
    OpenFailed(KWinError),
    Opened,
    StartFailed(String),
    Started,
    Reply(String),
    Timeout,
    /// The script was unloaded, or could not be: that makes no difference.
    Stopped,
}

/// What to do next.
#[derive(Debug)]
pub enum RunAction {
    Open,
    Start,
    Wait,
    /// Unload the script, after forgetting the request if so told.
    Stop { abandon: bool },
    /// Forget the request if so told, and return.
    Finish { abandon: bool, result: Result<String, KWinError> },
}

/// What a phase says.
#[verifier::ext_equal]
pub enum PhaseView {
    Loading,
    Opening,
    Starting,
    Waiting,
    Replied(Seq<char>),
    Expired,
    NotStarted(Seq<char>),
    Done,
}

/// What an action says.
#[verifier::ext_equal]
pub enum ActionView {
    Open,
    Start,
    Wait,
    Stop { abandon: bool },
    Finish { abandon: bool, result: Result<Seq<char>, KWinErrorView> },
}

impl View for RunPhase {
    type V = PhaseView;

    open spec fn view(&self) -> PhaseView {
        match *self {
            RunPhase::Loading => PhaseView::Loading,
            RunPhase::Opening => PhaseView::Opening,
            RunPhase::Starting => PhaseView::Starting,
            RunPhase::Waiting => PhaseView::Waiting,
            RunPhase::Replied(s) => PhaseView::Replied(s@),
            RunPhase::Expired => PhaseView::Expired,
            RunPhase::NotStarted(s) => PhaseView::NotStarted(s@),
            RunPhase::Done => PhaseView::Done,
        }
    }
}

impl View for RunAction {
    type V = ActionView;

    open spec fn view(&self) -> ActionView {
        match *self {
            RunAction::Open => ActionView::Open,
            RunAction::Start => ActionView::Start,
            RunAction::Wait => ActionView::Wait,
            RunAction::Stop { abandon } => ActionView::Stop { abandon },
            RunAction::Finish { abandon, result } => ActionView::Finish {
                abandon,
                result: script_view(result),
            },
        }
    }
}

/// The run of one script.
#[derive(Debug)]
pub struct ScriptRun {
    pub script: String,
    pub req_id: String,
    pub phase: RunPhase,
}

/// The phase and the action that follow an event. An event that does not belong
/// to the phase changes nothing.
pub open spec fn run_next(
    script: Seq<char>,
    req: Seq<char>,
    phase: PhaseView,
    event: RunEvent,
) -> Option<(PhaseView, ActionView)> {
    match (phase, event) {
        (PhaseView::Loading, RunEvent::ProxyFailed(e)) => Some(
            (
                PhaseView::Done,
                ActionView::Finish {
                    abandon: false,
                    result: Err(KWinErrorView::Scripting("scripting proxy: "@ + e@)),
                },
            ),
        ),
        (PhaseView::Loading, RunEvent::LoadFailed(e)) => Some(
            (
                PhaseView::Done,
                ActionView::Finish {
                    abandon: true,
                    result: Err(
                        KWinErrorView::Scripting("loadScript("@ + script + "): "@ + e@),
                    ),
                },
            ),
        ),
        (PhaseView::Loading, RunEvent::Loaded) => Some((PhaseView::Opening, ActionView::Open)),
        (PhaseView::Opening, RunEvent::OpenFailed(e)) => Some(
            (PhaseView::Done, ActionView::Finish { abandon: true, result: Err(e@) }),
        ),
        (PhaseView::Opening, RunEvent::Opened) => Some((PhaseView::Starting, ActionView::Start)),
        (PhaseView::Starting, RunEvent::StartFailed(e)) => Some(
            (PhaseView::NotStarted(e@), ActionView::Stop { abandon: true }),
        ),
        (PhaseView::Starting, RunEvent::Started) => Some((PhaseView::Waiting, ActionView::Wait)),
        (PhaseView::Waiting, RunEvent::Reply(p)) => Some(
            (PhaseView::Replied(p@), ActionView::Stop { abandon: false }),
        ),
        (PhaseView::Waiting, RunEvent::Timeout) => Some(
            (PhaseView::Expired, ActionView::Stop { abandon: false }),
        ),
        (PhaseView::Replied(p), RunEvent::Stopped) => Some(
            (
                PhaseView::Done,
                ActionView::Finish { abandon: false, result: answer(script, req, p) },
            ),
        ),
        (PhaseView::Expired, RunEvent::Stopped) => Some(
            (
                PhaseView::Done,
                ActionView::Finish {
                    abandon: true,
                    result: Err(
                        KWinErrorView::ResponseTimeout {
                            script,
                            timeout_secs: SCRIPT_TIMEOUT_SECS,
                        },
                    ),
                },
            ),
        ),
        (PhaseView::NotStarted(e), RunEvent::Stopped) => Some(
            (
                PhaseView::Done,
                ActionView::Finish {
                    abandon: false,
                    result: Err(KWinErrorView::Scripting("run("@ + script + "): "@ + e)),
                },
            ),
        ),
        _ => None,
    }
}

fn called(what: &str, script: &str, e: &str) -> (r: String)
    ensures
        r@ == what@ + script@ + "): "@ + e@,
{
    let mut out = cat3(what, script, "): ");
    out.append(e);
    out
}

impl ScriptRun {
    /// A run that starts by loading the script.
    pub fn new(script: &str, req_id: &str) -> (r: ScriptRun)
        ensures
            r.script@ == script@,
            r.req_id@ == req_id@,
            r.phase@ == PhaseView::Loading,
    {
        ScriptRun { script: owned(script), req_id: owned(req_id), phase: RunPhase::Loading }
    }

    /// Takes in an event and says what to do next.
    pub fn step(&mut self, event: RunEvent) -> (r: Option<RunAction>)
        ensures
            final(self).script == old(self).script,
            final(self).req_id == old(self).req_id,
            match run_next(old(self).script@, old(self).req_id@, old(self).phase@, event) {
                Some(next) => r is Some && r->0@ == next.1 && final(self).phase@ == next.0,
                None => r is None && final(self).phase == old(self).phase,
            },
    {
        let mut phase = RunPhase::Done;
        let action = match (&self.phase, event) {
            (RunPhase::Loading, RunEvent::ProxyFailed(e)) => RunAction::Finish {
                abandon: false,
                result: Err(KWinError::Scripting(cat("scripting proxy: ", e.as_str()))),
            },
            (RunPhase::Loading, RunEvent::LoadFailed(e)) => RunAction::Finish {
                abandon: true,
                result: Err(
                    KWinError::Scripting(
                        called("loadScript(", self.script.as_str(), e.as_str()),
                    ),
                ),
            },
            (RunPhase::Loading, RunEvent::Loaded) => {
                phase = RunPhase::Opening;
                RunAction::Open
            },
            (RunPhase::Opening, RunEvent::OpenFailed(e)) => RunAction::Finish {
                abandon: true,
                result: Err(e),
            },
            (RunPhase::Opening, RunEvent::Opened) => {
                phase = RunPhase::Starting;
                RunAction::Start
            },
            (RunPhase::Starting, RunEvent::StartFailed(e)) => {
                phase = RunPhase::NotStarted(e);
                RunAction::Stop { abandon: true }
            },
            (RunPhase::Starting, RunEvent::Started) => {
                phase = RunPhase::Waiting;
                RunAction::Wait
            },
            (RunPhase::Waiting, RunEvent::Reply(p)) => {
                phase = RunPhase::Replied(p);
                RunAction::Stop { abandon: false }
            },
            (RunPhase::Waiting, RunEvent::Timeout) => {
                phase = RunPhase::Expired;
                RunAction::Stop { abandon: false }
            },
            (RunPhase::Replied(p), RunEvent::Stopped) => RunAction::Finish {
                abandon: false,
                result: read_answer(self.script.as_str(), self.req_id.as_str(), p.as_str()),
            },
            (RunPhase::Expired, RunEvent::Stopped) => RunAction::Finish {
                abandon: true,
                result: Err(
                    KWinError::ResponseTimeout {
                        script: self.script.clone(),
                        timeout_secs: SCRIPT_TIMEOUT_SECS,
                    },
                ),
            },
            (RunPhase::NotStarted(e), RunEvent::Stopped) => RunAction::Finish {
                abandon: false,
                result: Err(
                    KWinError::Scripting(called("run(", self.script.as_str(), e.as_str())),
                ),
            },
            _ => return None,
        };
        self.phase = phase;
        Some(action)
    }
}

/// A script is unloaded only after its reply, after the time is up, or after it
/// could not be started: never while its reply is still to come.
pub proof fn law_stop_waits_for_reply(
    script: Seq<char>,
    req: Seq<char>,
    phase: PhaseView,
    event: RunEvent,
)
    ensures
        run_next(script, req, phase, event) matches Some(next) ==> next.1 is Stop ==> (phase
            is Waiting && (event is Reply || event is Timeout)) || (phase is Starting && event
            is StartFailed),
{
}

/// A run that started and comes to an end has always unloaded its script.
pub proof fn law_finish_follows_stop(
    script: Seq<char>,
    req: Seq<char>,
    phase: PhaseView,
    event: RunEvent,
)
    ensures
        run_next(script, req, phase, event) matches Some(next) ==> next.1 is Finish ==> event
            is Stopped || phase is Loading || phase is Opening,
{
}

/// Only a reply that carries the identifier of the request is taken as its
/// result.
pub proof fn law_result_belongs_to_request(script: Seq<char>, req: Seq<char>, v: Json)
    ensures
        result_text(script, req, v) is Ok ==> v.str_of("req"@) == Some(req),
{
}

// ---------------------------------------------------------------------------
// Events for those who only follow identifiers
// ---------------------------------------------------------------------------
/// What a push says to someone who only follows identifiers: a window that
/// appeared or was focused is announced as its identifier, carried by a closed
/// event; every other push is left out.
pub open spec fn approximate_push(value: Json) -> Option<EventView> {
    match (value.str_of("event"@), value.str_of("id"@)) {
        (Some(kind), Some(id)) => if kind == "windowOpened"@ || kind == "windowFocused"@ {
            Some(
                EventView::WindowClosed {
                    id: IdView { native_id: id, de_type: DesktopEnvironment::KDE },
                    source: EventSource::KWinWayland,
                },
            )
        } else {
            None
        },
        _ => None,
    }
}

/// The approximate event for a push of the resident script.
pub fn approximate_event(value: &Json) -> (r: Option<DesktopEvent>)
    ensures
        opt_view(r) == approximate_push(*value),
{
    match (value.get_str("event"), value.get_str("id")) {
        (Some(kind), Some(id)) => if same(kind, "windowOpened") || same(kind, "windowFocused") {
            Some(
                DesktopEvent::WindowClosed {
                    id: WindowId { native_id: owned(id), de_type: DesktopEnvironment::KDE },
                    source: EventSource::KWinWayland,
                },
            )
        } else {
            None
        },
        _ => None,
    }
}

} // verus!
