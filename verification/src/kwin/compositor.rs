//! The KWin compositor component: what it reports, which channel each operation
//! takes, and how replies become windows, workspaces and monitors.
//!
//! Listing, focusing, minimising and closing prefer the window protocol. Moving,
//! resizing and maximising have no protocol request and need scripting. On X11
//! the window manager hints replace both where they can.

use vstd::prelude::*;
use vstd::string::*;

use crate::json::{
    int_json, low_u32, or_blank, or_empty, read_rect, rect_in, text_json, u32_or_zero, Json,
};
use crate::kwin::dbus_bridge::probe_view;
use crate::kwin::error::{KWinError, KWinErrorView};
use crate::kwin::event_script::EventScriptHandle;
use crate::kwin::native::{flagged_states, kde, not_empty, states_from_flags};
use crate::kwin::scripts::{template, ScriptTemplate};
use crate::kwin::version::{KWinMajor, KWinVersion};
use crate::kwin::wayland::KWinProtocols;
use crate::text::{
    cat, cat3, dec, dec_of, join, joined, lemma_texts_push, opt_text, owned, read_u32,
    read_unsigned, same, texts,
};
use crate::types::{
    lemma_views_push, opt_view, views, zero_rect, AgentShellError, BackendCapabilities,
    ComponentHealth, DesktopEnvironment, ErrorView, EventSource, HealthView, MonitorId, MonitorInfo,
    MonitorView, Rect, WindowId, WindowInfo, WindowType, WindowView, WorkspaceId, WorkspaceInfo,
    WorkspaceView,
};

verus! {

/// The kind of session that KWin runs.
#[derive(Clone, Copy, Debug, PartialEq, Eq, Structural)]
pub enum SessionKind {
    Wayland,
    X11,
}

// ---------------------------------------------------------------------------
// Scripting probe
// ---------------------------------------------------------------------------
/// Code of a probe that was not made yet.
pub const PROBE_UNSET: u8 = 0;

/// Code of a probe that found KWin out of reach.
pub const PROBE_FAIL_TRANSIENT: u8 = 1;

/// Code of a probe that found KWin without scripting.
pub const PROBE_FAIL_PERMANENT: u8 = 2;

/// Code of a probe that found scripting.
pub const PROBE_OK: u8 = 3;

/// What the last probe of the scripting object found.
#[derive(Clone, Copy, Debug, PartialEq, Eq, Structural)]
pub enum ScriptingProbe {
    Unset,
    FailTransient,
    FailPermanent,
    Found,
}

/// The state behind a code; an unknown code counts as no probe.
pub open spec fn probe_of_code(code: u8) -> ScriptingProbe {
    if code == PROBE_OK {
        ScriptingProbe::Found
    } else if code == PROBE_FAIL_TRANSIENT {
        ScriptingProbe::FailTransient
    } else if code == PROBE_FAIL_PERMANENT {
        ScriptingProbe::FailPermanent
    } else {
        ScriptingProbe::Unset
    }
}

/// The code that a probe result is recorded under.
pub open spec fn code_of_result(result: Result<(), KWinErrorView>) -> u8 {
    match result {
        Ok(_) => PROBE_OK,
        Err(KWinErrorView::ScriptingUnavailable(_)) => PROBE_FAIL_PERMANENT,
        Err(_) => PROBE_FAIL_TRANSIENT,
    }
}

/// The code after a probe result: a confirmed state stays, any other one is
/// replaced.
pub open spec fn recorded(code: u8, result: Result<(), KWinErrorView>) -> u8 {
    if code == PROBE_OK {
        code
    } else {
        code_of_result(result)
    }
}

/// Once scripting was found, no later result changes that.
pub proof fn law_confirmed_probe_is_final(result: Result<(), KWinErrorView>)
    ensures
        recorded(PROBE_OK, result) == PROBE_OK,
{
}

/// A failed probe, of either kind, is repeated, and a repetition that finds
/// scripting heals it.
pub proof fn law_failed_probe_heals(code: u8)
    requires
        code != PROBE_OK,
    ensures
        probe_of_code(code) != ScriptingProbe::Found,
        recorded(code, Ok(())) == PROBE_OK,
{
}

/// What is known of scripting without a probe: that it is there, once it was found.
pub open spec fn known(code: u8) -> Option<Result<(), KWinErrorView>> {
    if probe_of_code(code) == ScriptingProbe::Found {
        Some(Ok(()))
    } else {
        None
    }
}

/// A call that makes sure of scripting, where a probe would give `outcome`: the
/// code after it, and its answer. The probe is made only where nothing is known.
pub open spec fn ensured(code: u8, outcome: Result<(), KWinErrorView>) -> (
    u8,
    Result<(), KWinErrorView>,
) {
    match known(code) {
        Some(answer) => (code, answer),
        None => (recorded(code, outcome), outcome),
    }
}

/// Such calls one after the other: the code after them, and their answers.
pub open spec fn ensured_often(code: u8, outcomes: Seq<Result<(), KWinErrorView>>) -> (
    u8,
    Seq<Result<(), KWinErrorView>>,
)
    decreases outcomes.len(),
{
    if outcomes.len() == 0 {
        (code, Seq::empty())
    } else {
        let (before, answers) = ensured_often(code, outcomes.drop_last());
        let (after, answer) = ensured(before, outcomes.last());
        (after, answers.push(answer))
    }
}

/// Once scripting was found, every further call succeeds and leaves it found,
/// whatever a probe would have given: none is made.
pub proof fn law_found_scripting_is_not_probed_again(
    code: u8,
    outcomes: Seq<Result<(), KWinErrorView>>,
)
    requires
        probe_of_code(code) == ScriptingProbe::Found,
    ensures
        known(code) == Some(Ok::<(), KWinErrorView>(())),
        ensured_often(code, outcomes).0 == code,
        ensured_often(code, outcomes).1 == Seq::new(
            outcomes.len(),
            |i: int| Ok::<(), KWinErrorView>(()),
        ),
    decreases outcomes.len(),
{
    let all = Seq::new(outcomes.len(), |i: int| Ok::<(), KWinErrorView>(()));
    if outcomes.len() > 0 {
        law_found_scripting_is_not_probed_again(code, outcomes.drop_last());
        assert(ensured_often(code, outcomes).1 =~= all);
    } else {
        assert(ensured_often(code, outcomes).1 =~= all);
    }
}

/// Scripting that is missing for sure is reported as missing, and heals with the
/// first call after it appeared; from then on every call succeeds.
pub proof fn law_missing_scripting_heals(
    code: u8,
    e: KWinErrorView,
    later: Seq<Result<(), KWinErrorView>>,
)
    requires
        probe_of_code(code) != ScriptingProbe::Found,
        e is ScriptingUnavailable,
    ensures
        ({
            let first = ensured(code, Err(e));
            let second = ensured(first.0, Ok(()));
            let rest = ensured_often(second.0, later);
            &&& first.1 == Err::<(), KWinErrorView>(e)
            &&& probe_of_code(first.0) == ScriptingProbe::FailPermanent
            &&& second.1 == Ok::<(), KWinErrorView>(())
            &&& probe_of_code(second.0) == ScriptingProbe::Found
            &&& probe_of_code(rest.0) == ScriptingProbe::Found
            &&& forall|i: int| 0 <= i < later.len() ==> (#[trigger] rest.1[i]) is Ok
        }),
{
    let first = ensured(code, Err(e));
    let second = ensured(first.0, Ok(()));
    law_found_scripting_is_not_probed_again(second.0, later);
}

// ---------------------------------------------------------------------------
// The component
// ---------------------------------------------------------------------------
/// What came of registering the signals of the resident script.
#[derive(Debug)]
pub enum RegistrationOutcome {
    Ready,
    Failed(String),
}

/// A way by which window events come in.
#[derive(Clone, Copy, Debug, PartialEq, Eq, Structural)]
pub enum EventChannel {
    /// Pushes of the resident script.
    Script,
    /// Changes of the window manager hints.
    Ewmh,
    /// Events of the window protocol.
    Native,
}

/// The channels whose events were handed out. The events of a channel can be
/// handed out once.
#[derive(Clone, Copy, Debug, PartialEq, Eq, Structural)]
pub struct EventClaims {
    pub script: bool,
    pub ewmh: bool,
    pub native: bool,
}

/// What the component knows of its session.
#[derive(Debug)]
pub struct KWinCompositor {
    /// A Wayland display is connected.
    pub wayland: bool,
    /// An X11 display is connected.
    pub x11: bool,
    /// The private protocols, in a Wayland session.
    pub protocols: Option<KWinProtocols>,
    pub version: KWinVersion,
    /// The code of the last scripting probe.
    pub scripting_probe: u8,
    /// The resident script of this component, once it was started.
    pub event_handle: Option<EventScriptHandle>,
    /// Whether the resident script of this component registered its signals.
    pub event_registration: Option<Result<(), String>>,
    /// A registration that nobody here waited for.
    pub late_registration: Option<RegistrationOutcome>,
    /// The event channels whose events were handed out.
    pub claims: EventClaims,
}

/// The mark in front of a line.
pub open spec fn mark(good: bool) -> Seq<char> {
    if good {
        "✓"@
    } else {
        "⚠"@
    }
}

fn mark_of(good: bool) -> (r: &'static str)
    ensures
        r@ == mark(good),
{
    if good {
        "✓"
    } else {
        "⚠"
    }
}

/// The bound protocols, each with its version.
pub open spec fn protocol_details(p: KWinProtocols) -> Seq<Seq<char>> {
    let a = match p.window_mgmt {
        Some(w) => seq!["window_mgmt v"@ + dec(w.advertised_version as nat)],
        None => Seq::empty(),
    };
    let b = if p.fake_input is Some {
        a.push("fake_input v5+"@)
    } else {
        a
    };
    if p.vd_mgmt {
        b.push("vd_mgmt bound"@)
    } else {
        b
    }
}

/// The line on the private protocols.
pub open spec fn protocol_line(p: KWinProtocols) -> Seq<char> {
    mark(p.bound() > 0) + " Wayland 协议 : "@ + dec(p.bound()) + "/3 globals bound ("@ + join(
        protocol_details(p),
        ", "@,
    ) + ")"@
}

/// The line on KWin itself.
pub open spec fn version_line(full: Seq<char>) -> Seq<char> {
    if full == "unknown"@ {
        mark(false) + " KWin 服务   : org.kde.KWin "@ + "version probe failed (supportInformation)"@
    } else {
        mark(true) + " KWin 服务   : org.kde.KWin "@ + ("v"@ + full)
    }
}

/// The line on the scripting bridge.
pub open spec fn bridge_line(state: ScriptingProbe) -> Seq<char> {
    match state {
        ScriptingProbe::Found =>
            "✓ D-Bus 桥接 : callDBus ready (14 templates, req-id routed; /Scripting introspected)"@,
        ScriptingProbe::FailPermanent =>
            "⚠ D-Bus 桥接 : /Scripting 未就绪（未注册/确证缺失）；窗口/工作区走会话原生通道，Scripting 按需重试"@,
        ScriptingProbe::FailTransient =>
            "⚠ D-Bus 桥接 : /Scripting 未就绪（不可达/瞬时）；窗口/工作区走会话原生通道，Scripting 按需重试"@,
        ScriptingProbe::Unset =>
            "⚠ D-Bus 桥接 : 未探测（调用 ensure_scripting_probe 后更新）"@,
    }
}

/// The line on input injection.
pub open spec fn input_line(p: KWinProtocols) -> Seq<char> {
    match p.fake_input {
        Some(f) => if f.declared() {
            "✓ 输入注入   : fake_input authenticated ✓"@
        } else {
            "⚠ 输入注入   : fake_input bound, not authenticated"@
        },
        None => "⚠ 输入注入   : 无 fake_input（降级 libei/ydotool/XTest/xdotool）"@,
    }
}

/// The line on the resident script.
pub open spec fn event_line(
    own: Option<Result<(), String>>,
    late: Option<RegistrationOutcome>,
) -> Seq<char> {
    match own {
        Some(Ok(_)) =>
            "✓ 事件脚本    : signals registered (windowAdded/windowRemoved/windowActivated OK)"@,
        Some(Err(msg)) => "✗ 事件脚本    : signal registration failed: "@ + msg@,
        None => match late {
            Some(RegistrationOutcome::Ready) =>
                "⚠ 事件脚本    : 检测到外部实例已注册（本组件未加载，疑似残留 event_monitor）"@,
            Some(RegistrationOutcome::Failed(msg)) => "✗ 事件脚本    : 外部实例信号注册失败: "@
                + msg@,
            None => "⚠ 事件脚本    : 未加载（懒启动，首次 events subscribe 时装配）"@,
        },
    }
}

impl KWinCompositor {
    /// The lines of the diagnostic report, in order.
    pub open spec fn report(self) -> Seq<Seq<char>> {
        let a = match self.protocols {
            Some(p) => seq![protocol_line(p)],
            None => Seq::empty(),
        };
        let b = a.push(version_line(self.version.full@)).push(
            bridge_line(probe_of_code(self.scripting_probe)),
        );
        let c = match self.protocols {
            Some(p) => b.push(input_line(p)),
            None => b,
        };
        c.push(event_line(self.event_registration, self.late_registration))
    }

    fn protocol_report(p: &KWinProtocols) -> (r: String)
        ensures
            r@ == protocol_line(*p),
    {
        broadcast use lemma_texts_push;

        let bound: usize = p.bound_count();
        let mut details: Vec<String> = Vec::new();
        if let Some(w) = &p.window_mgmt {
            let v = dec_of(w.advertised_version as u64);
            details.push(cat("window_mgmt v", v.as_str()));
        }
        if p.fake_input.is_some() {
            details.push(owned("fake_input v5+"));
        }
        if p.vd_mgmt {
            details.push(owned("vd_mgmt bound"));
        }
        assert(texts(details@) =~= protocol_details(*p));
        let detail = joined(&details, ", ");
        let n = dec_of(bound as u64);
        let mut out = cat3(mark_of(bound > 0), " Wayland 协议 : ", n.as_str());
        out.append("/3 globals bound (");
        out.append(detail.as_str());
        out.append(")");
        out
    }

    fn version_report(full: &str) -> (r: String)
        ensures
            r@ == version_line(full@),
    {
        if same(full, "unknown") {
            cat3(
                mark_of(false),
                " KWin 服务   : org.kde.KWin ",
                "version probe failed (supportInformation)",
            )
        } else {
            let v = cat("v", full);
            cat3(mark_of(true), " KWin 服务   : org.kde.KWin ", v.as_str())
        }
    }

    fn bridge_report(state: ScriptingProbe) -> (r: String)
        ensures
            r@ == bridge_line(state),
    {
        match state {
            ScriptingProbe::Found => owned(
                "✓ D-Bus 桥接 : callDBus ready (14 templates, req-id routed; /Scripting introspected)",
            ),
            ScriptingProbe::FailPermanent => owned(
                "⚠ D-Bus 桥接 : /Scripting 未就绪（未注册/确证缺失）；窗口/工作区走会话原生通道，Scripting 按需重试",
            ),
            ScriptingProbe::FailTransient => owned(
                "⚠ D-Bus 桥接 : /Scripting 未就绪（不可达/瞬时）；窗口/工作区走会话原生通道，Scripting 按需重试",
            ),
            ScriptingProbe::Unset => owned(
                "⚠ D-Bus 桥接 : 未探测（调用 ensure_scripting_probe 后更新）",
            ),
        }
    }

    fn input_report(p: &KWinProtocols) -> (r: String)
        ensures
            r@ == input_line(*p),
    {
        match &p.fake_input {
            Some(f) => if f.is_authenticated() {
                owned("✓ 输入注入   : fake_input authenticated ✓")
            } else {
                owned("⚠ 输入注入   : fake_input bound, not authenticated")
            },
            None => owned("⚠ 输入注入   : 无 fake_input（降级 libei/ydotool/XTest/xdotool）"),
        }
    }

    fn event_report(&self) -> (r: String)
        ensures
            r@ == event_line(self.event_registration, self.late_registration),
    {
        match &self.event_registration {
            Some(Ok(_)) => owned(
                "✓ 事件脚本    : signals registered (windowAdded/windowRemoved/windowActivated OK)",
            ),
            Some(Err(msg)) => cat(
                "✗ 事件脚本    : signal registration failed: ",
                msg.as_str(),
            ),
            None => match &self.late_registration {
                Some(RegistrationOutcome::Ready) => owned(
                    "⚠ 事件脚本    : 检测到外部实例已注册（本组件未加载，疑似残留 event_monitor）",
                ),
                Some(RegistrationOutcome::Failed(msg)) => cat(
                    "✗ 事件脚本    : 外部实例信号注册失败: ",
                    msg.as_str(),
                ),
                None => owned(
                    "⚠ 事件脚本    : 未加载（懒启动，首次 events subscribe 时装配）",
                ),
            },
        }
    }

    /// The lines of the diagnostic report. Every line rests on evidence: the
    /// bindings, the detected version, the last probe, the registration.
    pub fn doctor_lines(&self) -> (r: Vec<String>)
        ensures
            texts(r@) == self.report(),
    {
        broadcast use lemma_texts_push;

        let mut lines: Vec<String> = Vec::new();
        if let Some(p) = &self.protocols {
            lines.push(Self::protocol_report(p));
            assert(texts(lines@) =~= seq![protocol_line(*p)]);
        } else {
            assert(texts(lines@) =~= Seq::<Seq<char>>::empty());
        }
        lines.push(Self::version_report(self.version.full.as_str()));
        lines.push(Self::bridge_report(self.scripting_probe_state()));
        if let Some(p) = &self.protocols {
            lines.push(Self::input_report(p));
        }
        lines.push(self.event_report());
        lines
    }

    /// The kind of session.
    pub fn session_kind(&self) -> (r: SessionKind)
        ensures
            r == (if self.wayland {
                SessionKind::Wayland
            } else {
                SessionKind::X11
            }),
    {
        if self.wayland {
            SessionKind::Wayland
        } else {
            SessionKind::X11
        }
    }

    /// The detected version.
    pub fn kwin_version(&self) -> (r: &KWinVersion)
        ensures
            *r == self.version,
    {
        &self.version
    }

    /// Whether window management is bound.
    pub open spec fn window_mgmt_bound(self) -> bool {
        self.protocols is Some && self.protocols->0.window_mgmt is Some
    }

    fn has_window_mgmt(&self) -> (r: bool)
        ensures
            r == self.window_mgmt_bound(),
    {
        match &self.protocols {
            Some(p) => p.window_mgmt.is_some(),
            None => false,
        }
    }

    /// How well the component works, by what could be bound.
    pub fn health(&self) -> (r: ComponentHealth)
        ensures
            r@ == (match self.protocols {
                None => HealthView::Degraded("X11 session; EWMH/ICCCM + scripting"@),
                Some(p) => if p.window_mgmt is None {
                    HealthView::Degraded("window_mgmt unbound; scripting fallback"@)
                } else if p.failures@.len() == 0 {
                    HealthView::Healthy
                } else {
                    HealthView::Degraded("protocol partial; scripting fallback active"@)
                },
            }),
    {
        match &self.protocols {
            None => ComponentHealth::Degraded(owned("X11 session; EWMH/ICCCM + scripting")),
            Some(p) => if p.window_mgmt.is_none() {
                ComponentHealth::Degraded(owned("window_mgmt unbound; scripting fallback"))
            } else if p.bind_failures().len() == 0 {
                ComponentHealth::Healthy
            } else {
                ComponentHealth::Degraded(owned("protocol partial; scripting fallback active"))
            },
        }
    }

    /// What the component can do. Event streams start on demand and are not
    /// promised beforehand.
    pub fn capabilities(&self) -> (r: BackendCapabilities)
        ensures
            r == (BackendCapabilities {
                window_management: true,
                workspace_management: true,
                monitor_layout: true,
                window_events: false,
                workspace_events: false,
                native_input: self.protocols is Some && self.protocols->0.fake_input is Some
                    && self.protocols->0.fake_input->0.declared(),
                native_capture: false,
                virtual_desktops: true,
                effects_control: false,
            }),
    {
        let native_input = match &self.protocols {
            Some(p) => p.can_inject(),
            None => false,
        };
        BackendCapabilities {
            window_management: true,
            workspace_management: true,
            monitor_layout: true,
            window_events: false,
            workspace_events: false,
            native_input,
            native_capture: false,
            virtual_desktops: true,
            effects_control: false,
        }
    }

    /// The capabilities that become available on demand.
    pub fn lazy_capabilities(&self) -> (r: Vec<&'static str>)
        ensures
            r@.len() == 2,
            r@[0]@ == "window_events"@,
            r@[1]@ == "workspace_events"@,
    {
        let mut out: Vec<&'static str> = Vec::new();
        out.push("window_events");
        out.push("workspace_events");
        out
    }
}

// ---------------------------------------------------------------------------
// Assembly, probing and events
// ---------------------------------------------------------------------------
/// A component that was assembled in some session, with nothing tried yet.
pub open spec fn fresh(c: KWinCompositor) -> bool {
    &&& c.scripting_probe == PROBE_UNSET
    &&& c.event_handle is None
    &&& c.event_registration is None
    &&& c.late_registration is None
    &&& c.claims == (EventClaims { script: false, ewmh: false, native: false })
}

impl EventClaims {
    /// Whether the events of a channel were handed out.
    pub open spec fn has(self, channel: EventChannel) -> bool {
        match channel {
            EventChannel::Script => self.script,
            EventChannel::Ewmh => self.ewmh,
            EventChannel::Native => self.native,
        }
    }

    /// The claims with one more channel handed out.
    pub open spec fn with(self, channel: EventChannel) -> EventClaims {
        match channel {
            EventChannel::Script => EventClaims { script: true, ..self },
            EventChannel::Ewmh => EventClaims { ewmh: true, ..self },
            EventChannel::Native => EventClaims { native: true, ..self },
        }
    }
}

/// Reported when the events of a channel were handed out before.
pub open spec fn taken_text(channel: EventChannel) -> Seq<char> {
    match channel {
        EventChannel::Script => "kwin event stream already subscribed"@,
        EventChannel::Ewmh => "kwin ewmh event stream already subscribed"@,
        EventChannel::Native => "kwin native event stream already subscribed"@,
    }
}

/// Whether the events of a channel can be handed out, and if not, why. The
/// window protocol needs a Wayland display.
pub open spec fn claimable(claims: EventClaims, wayland: bool, channel: EventChannel) -> Result<
    (),
    ErrorView,
> {
    if channel == EventChannel::Native && !wayland {
        Err(ErrorView::BackendUnavailable("no wayland display (X11 session)"@))
    } else if claims.has(channel) {
        Err(ErrorView::BackendUnavailable(taken_text(channel)))
    } else {
        Ok(())
    }
}

/// The events of a channel are handed out once: who comes later is refused.
pub proof fn law_events_are_handed_out_once(
    claims: EventClaims,
    wayland: bool,
    channel: EventChannel,
)
    requires
        claimable(claims, wayland, channel) is Ok,
    ensures
        claimable(claims.with(channel), wayland, channel) == Err::<(), ErrorView>(
            ErrorView::BackendUnavailable(taken_text(channel)),
        ),
{
}

/// Handing out the events of one channel leaves the other channels alone.
pub proof fn law_channels_are_independent(
    claims: EventClaims,
    wayland: bool,
    channel: EventChannel,
    other: EventChannel,
)
    requires
        channel != other,
    ensures
        claimable(claims.with(channel), wayland, other) == claimable(claims, wayland, other),
{
}

impl EventChannel {
    /// The name of the event source.
    pub fn source_name(&self) -> (r: &'static str)
        ensures
            r@ == (match *self {
                EventChannel::Script => "kwin-scripting"@,
                EventChannel::Ewmh => "kwin-ewmh"@,
                EventChannel::Native => "kwin-wayland-native"@,
            }),
    {
        match self {
            EventChannel::Script => "kwin-scripting",
            EventChannel::Ewmh => "kwin-ewmh",
            EventChannel::Native => "kwin-wayland-native",
        }
    }
}

impl KWinCompositor {
    fn assembled(
        wayland: bool,
        x11: bool,
        protocols: Option<KWinProtocols>,
        version: KWinVersion,
    ) -> (r: KWinCompositor)
        ensures
            r.wayland == wayland,
            r.x11 == x11,
            r.protocols == protocols,
            r.version == version,
            fresh(r),
    {
        KWinCompositor {
            wayland,
            x11,
            protocols,
            version,
            scripting_probe: PROBE_UNSET,
            event_handle: None,
            event_registration: None,
            late_registration: None,
            claims: EventClaims { script: false, ewmh: false, native: false },
        }
    }

    /// The component of a Wayland session, from what came of connecting to the
    /// display and of setting up the bridge. It works with either of them; only
    /// without both there is no component.
    pub fn new_wayland(
        display: Result<KWinProtocols, AgentShellError>,
        bridge: Result<(), KWinError>,
        version: KWinVersion,
    ) -> (r: Result<KWinCompositor, KWinError>)
        ensures
            match r {
                Ok(c) => {
                    &&& display is Ok || bridge is Ok
                    &&& c.wayland == display is Ok
                    &&& !c.x11
                    &&& c.protocols == (match display {
                        Ok(p) => Some(p),
                        Err(_) => None,
                    })
                    &&& c.version == version
                    &&& fresh(c)
                },
                Err(e) => {
                    &&& bridge is Err
                    &&& display matches Err(d)
                    &&& e@ == KWinErrorView::Scripting(d@.message())
                },
            },
    {
        match display {
            Ok(p) => Ok(Self::assembled(true, false, Some(p), version)),
            Err(e) => match bridge {
                Ok(_) => Ok(Self::assembled(false, false, None, version)),
                Err(_) => Err(KWinError::from_shell_error(&e)),
            },
        }
    }

    /// The component of an X11 session, which needs the display and the bridge.
    pub fn new_x11(
        display: Result<(), AgentShellError>,
        bridge: Result<(), KWinError>,
        version: KWinVersion,
    ) -> (r: Result<KWinCompositor, KWinError>)
        ensures
            match (display, bridge) {
                (Err(d), _) => r matches Err(e) && e@ == KWinErrorView::Scripting(d@.message()),
                (Ok(_), Err(b)) => r matches Err(e) && e == b,
                (Ok(_), Ok(_)) => r matches Ok(c) && {
                    &&& !c.wayland
                    &&& c.x11
                    &&& c.protocols is None
                    &&& c.version == version
                    &&& fresh(c)
                },
            },
    {
        match display {
            Err(e) => Err(KWinError::from_shell_error(&e)),
            Ok(_) => match bridge {
                Err(e) => Err(e),
                Ok(_) => Ok(Self::assembled(false, true, None, version)),
            },
        }
    }

    /// A component without displays, with the result of its last probe: found,
    /// failed, or none made.
    pub fn for_test(probe: Option<bool>) -> (r: KWinCompositor)
        ensures
            !r.wayland,
            !r.x11,
            r.protocols is None,
            r.version.full@ == "6.1.4"@,
            r.version.major == KWinMajor::V6,
            r.scripting_probe == (match probe {
                Some(true) => PROBE_OK,
                Some(false) => PROBE_FAIL_TRANSIENT,
                None => PROBE_UNSET,
            }),
            fresh((KWinCompositor { scripting_probe: PROBE_UNSET, ..r })),
    {
        let mut c = Self::assembled(
            false,
            false,
            None,
            KWinVersion { full: owned("6.1.4"), major: KWinMajor::V6 },
        );
        c.scripting_probe =
        match probe {
            Some(found) => if found {
                PROBE_OK
            } else {
                PROBE_FAIL_TRANSIENT
            },
            None => PROBE_UNSET,
        };
        c
    }

    /// What the last probe of the scripting object found.
    pub fn scripting_probe_state(&self) -> (r: ScriptingProbe)
        ensures
            r == probe_of_code(self.scripting_probe),
    {
        if self.scripting_probe == PROBE_OK {
            ScriptingProbe::Found
        } else if self.scripting_probe == PROBE_FAIL_TRANSIENT {
            ScriptingProbe::FailTransient
        } else if self.scripting_probe == PROBE_FAIL_PERMANENT {
            ScriptingProbe::FailPermanent
        } else {
            ScriptingProbe::Unset
        }
    }

    /// What is known without a probe: that scripting is there, once it was found.
    /// Otherwise a probe has to be made.
    pub fn known_probe(&self) -> (r: Option<Result<(), KWinError>>)
        ensures
            r == (if probe_of_code(self.scripting_probe) == ScriptingProbe::Found {
                Some(Ok::<(), KWinError>(()))
            } else {
                None
            }),
            (match r {
                Some(answer) => Some(probe_view(answer)),
                None => None,
            }) == known(self.scripting_probe),
    {
        if self.scripting_probe == PROBE_OK {
            Some(Ok(()))
        } else {
            None
        }
    }

    /// Takes in what a probe found, which was made because nothing was known, and
    /// hands it on. A late result never replaces a confirmed state.
    pub fn ensure_scripting_probe(&mut self, found: Result<(), KWinError>) -> (r: Result<
        (),
        KWinError,
    >)
        ensures
            r == found,
            *final(self) == (KWinCompositor {
                scripting_probe: recorded(old(self).scripting_probe, probe_view(found)),
                ..*old(self)
            }),
            known(old(self).scripting_probe) is None ==> (
                final(self).scripting_probe,
                probe_view(r),
            ) == ensured(old(self).scripting_probe, probe_view(found)),
    {
        if self.scripting_probe != PROBE_OK {
            self.scripting_probe =
            match &found {
                Ok(_) => PROBE_OK,
                Err(KWinError::ScriptingUnavailable(_)) => PROBE_FAIL_PERMANENT,
                Err(_) => PROBE_FAIL_TRANSIENT,
            };
        }
        found
    }

    /// Whether the resident script has to be started.
    pub fn event_script_due(&self) -> (r: bool)
        ensures
            r == (self.event_handle is None),
    {
        self.event_handle.is_none()
    }

    /// Takes in what came of starting the resident script. A failure is kept for
    /// the report and leaves the script to be started again.
    pub fn ensure_event_monitor(&mut self, started: Result<EventScriptHandle, KWinError>) -> (r:
        Result<(), KWinError>)
        ensures
            match started {
                Ok(h) => r is Ok && *final(self) == (KWinCompositor {
                    event_handle: Some(h),
                    event_registration: Some(Ok(())),
                    ..*old(self)
                }),
                Err(e) => {
                    &&& r == Err::<(), KWinError>(e)
                    &&& final(self).event_registration matches Some(Err(m)) && m@ == e@.message()
                    &&& *final(self) == (KWinCompositor {
                        event_registration: final(self).event_registration,
                        ..*old(self)
                    })
                },
            },
    {
        match started {
            Ok(h) => {
                self.event_handle = Some(h);
                self.event_registration = Some(Ok(()));
                Ok(())
            },
            Err(e) => {
                self.event_registration = Some(Err(e.message()));
                Err(e)
            },
        }
    }

    /// Forgets the resident script and gives the object path to unload it by, if
    /// it still runs.
    pub fn shutdown_event_script(&mut self) -> (r: Option<String>)
        ensures
            *final(self) == (KWinCompositor { event_handle: None, ..*old(self) }),
            opt_text(r) == (match old(self).event_handle {
                Some(h) => if h.is_live() {
                    Some(h.path())
                } else {
                    None
                },
                None => None,
            }),
    {
        match self.event_handle.take() {
            Some(h) => {
                if h.is_running() {
                    Some(owned(h.object_path()))
                } else {
                    None
                }
            },
            None => None,
        }
    }

    /// Hands out the events of a channel, once.
    pub fn claim_events(&mut self, channel: EventChannel) -> (r: Result<(), AgentShellError>)
        ensures
            match r {
                Ok(_) => claimable(old(self).claims, old(self).wayland, channel) is Ok,
                Err(e) => claimable(old(self).claims, old(self).wayland, channel) == Err::<
                    (),
                    ErrorView,
                >(e@),
            },
            *final(self) == (KWinCompositor {
                claims: if r is Ok {
                    old(self).claims.with(channel)
                } else {
                    old(self).claims
                },
                ..*old(self)
            }),
    {
        let claims = self.claims;
        match channel {
            EventChannel::Script => {
                if claims.script {
                    return Err(
                        AgentShellError::BackendUnavailable(
                            owned("kwin event stream already subscribed"),
                        ),
                    );
                }
                self.claims = EventClaims { script: true, ..claims };
            },
            EventChannel::Ewmh => {
                if claims.ewmh {
                    return Err(
                        AgentShellError::BackendUnavailable(
                            owned("kwin ewmh event stream already subscribed"),
                        ),
                    );
                }
                self.claims = EventClaims { ewmh: true, ..claims };
            },
            EventChannel::Native => {
                if !self.wayland {
                    return Err(
                        AgentShellError::BackendUnavailable(
                            owned("no wayland display (X11 session)"),
                        ),
                    );
                }
                if claims.native {
                    return Err(
                        AgentShellError::BackendUnavailable(
                            owned("kwin native event stream already subscribed"),
                        ),
                    );
                }
                self.claims = EventClaims { native: true, ..claims };
            },
        }
        Ok(())
    }

    /// What the events of a channel are said to come from.
    pub fn source_kind(&self, channel: EventChannel) -> (r: EventSource)
        ensures
            r == (match channel {
                EventChannel::Script => if self.wayland {
                    EventSource::KWinWayland
                } else {
                    EventSource::KWinX11
                },
                EventChannel::Ewmh => EventSource::KWinX11,
                EventChannel::Native => EventSource::KWinWayland,
            }),
    {
        match channel {
            EventChannel::Script => if self.wayland {
                EventSource::KWinWayland
            } else {
                EventSource::KWinX11
            },
            EventChannel::Ewmh => EventSource::KWinX11,
            EventChannel::Native => EventSource::KWinWayland,
        }
    }

    /// The uuids to read windows by, from a snapshot of the stacking order if
    /// there is one.
    pub fn native_uuids(&self, order: Option<Vec<String>>) -> (r: Result<
        Vec<String>,
        AgentShellError,
    >)
        ensures
            match (self.protocols, order) {
                (None, _) => r matches Err(e) && e@ == ErrorView::BackendUnavailable(
                    "no wayland protocol channel (X11 session uses EWMH)"@,
                ),
                (Some(_), None) => r matches Err(e) && e@ == ErrorView::BackendUnavailable(
                    "window_mgmt unbound or no stacking order snapshot (no enumeration)"@,
                ),
                (Some(_), Some(v)) => r == Ok::<Vec<String>, AgentShellError>(v),
            },
    {
        if self.protocols.is_none() {
            return Err(
                AgentShellError::BackendUnavailable(
                    owned("no wayland protocol channel (X11 session uses EWMH)"),
                ),
            );
        }
        match order {
            Some(v) => Ok(v),
            None => Err(
                AgentShellError::BackendUnavailable(
                    owned("window_mgmt unbound or no stacking order snapshot (no enumeration)"),
                ),
            ),
        }
    }
}

// ---------------------------------------------------------------------------
// Which channel an operation takes
// ---------------------------------------------------------------------------
/// The operations that choose among channels.
#[derive(Clone, Copy, Debug, PartialEq, Eq, Structural)]
pub enum Operation {
    ListWindows,
    ListWorkspaces,
    GetActiveWindow,
    FocusWindow,
    MoveWindow,
    ResizeWindow,
    MinimizeWindow,
    UnminimizeWindow,
    MaximizeWindow,
    CloseWindow,
    SetWindowGeometry,
    ActivateWorkspace,
    MoveWindowToWorkspace,
    ListMonitors,
    Subscribe,
}

/// The channel for an operation.
#[derive(Clone, Copy, Debug, PartialEq, Eq, Structural)]
pub enum Plan {
    /// Probe the scripting object and ask again.
    Probe,
    /// Read the window manager hints.
    Ewmh,
    /// Use the window manager hints on this window or desktop.
    EwmhTarget(u32),
    /// Send a request of the window protocol.
    Protocol,
    /// Use KWin's own interface or protocol.
    Native,
    /// Use KWin's own interface, and a script where that fails.
    NativeThenScript,
    /// Run a script.
    Script,
}

/// Reported when a window cannot be focused for want of any channel.
pub const NO_FOCUS: &'static str =
    "kwin wayland without /Scripting and without window_mgmt has no native focus_window; window focus requires KWin Scripting or org_kde_plasma_window_management";

/// Reported when a window cannot be moved for want of scripting.
pub const NO_MOVE: &'static str =
    "kwin wayland without /Scripting has no native move_window; absolute window move requires KWin Scripting";

/// Reported when a window cannot be resized for want of scripting.
pub const NO_RESIZE: &'static str =
    "kwin without /Scripting has no native resize_window; window resize requires KWin Scripting";

/// The plan for something that only a script can do. Where scripting is missing
/// for sure the operation does not exist; where KWin is merely out of reach the
/// error of the probe is handed on, with its hint to retry.
pub open spec fn needs_script(
    probe: Option<Result<(), KWinErrorView>>,
    missing: Seq<char>,
) -> Result<Plan, ErrorView> {
    match probe {
        None => Ok(Plan::Probe),
        Some(Ok(_)) => Ok(Plan::Script),
        Some(Err(KWinErrorView::ScriptingUnavailable(_))) => Err(ErrorView::NotImplemented(missing)),
        Some(Err(e)) => Err(e.shell_error()),
    }
}

/// The plan for a list.
pub open spec fn list_plan(probe: Option<Result<(), KWinErrorView>>) -> Plan {
    match probe {
        None => Plan::Probe,
        Some(Ok(_)) => Plan::Script,
        Some(Err(KWinErrorView::ScriptingUnavailable(_))) => Plan::Native,
        Some(Err(_)) => Plan::NativeThenScript,
    }
}

/// The plan for something that KWin's own interface can do instead of a script.
pub open spec fn script_or_native(probe: Option<Result<(), KWinErrorView>>) -> Plan {
    match probe {
        None => Plan::Probe,
        Some(Ok(_)) => Plan::Script,
        Some(Err(_)) => Plan::Native,
    }
}

/// The X11 window that an identifier denotes.
pub open spec fn x11_window(id: Seq<char>) -> Result<u32, ErrorView> {
    match read_unsigned(id, u32::MAX as nat) {
        Some(n) => Ok(n as u32),
        None => Err(ErrorView::WindowNotFound("invalid window id: "@ + id)),
    }
}

/// The X11 desktop that an identifier denotes.
pub open spec fn x11_workspace(id: Seq<char>) -> Result<u32, ErrorView> {
    match read_unsigned(id, u32::MAX as nat) {
        Some(n) => Ok(n as u32),
        None => Err(ErrorView::Other("invalid workspace id: "@ + id)),
    }
}

/// The plan for a target that an identifier may or may not denote.
pub open spec fn target_plan(target: Result<u32, ErrorView>) -> Result<Plan, ErrorView> {
    match target {
        Ok(n) => Ok(Plan::EwmhTarget(n)),
        Err(e) => Err(e),
    }
}

/// The channel for an operation on the window or workspace `id`, given whether
/// the session is X11, whether window management is bound, and what a probe of
/// the scripting object found if one was made.
pub open spec fn plan_for(
    op: Operation,
    x11: bool,
    bound: bool,
    id: Seq<char>,
    probe: Option<Result<(), KWinErrorView>>,
) -> Result<Plan, ErrorView> {
    match op {
        Operation::ListWindows => if x11 {
            Ok(Plan::Ewmh)
        } else {
            Ok(list_plan(probe))
        },
        Operation::ListWorkspaces => if x11 {
            Ok(Plan::Ewmh)
        } else {
            Ok(list_plan(probe))
        },
        Operation::GetActiveWindow => if x11 {
            Ok(Plan::Ewmh)
        } else {
            Ok(Plan::Script)
        },
        Operation::FocusWindow => if x11 {
            target_plan(x11_window(id))
        } else if bound {
            Ok(Plan::Protocol)
        } else {
            needs_script(probe, NO_FOCUS@)
        },
        Operation::MoveWindow => if x11 {
            target_plan(x11_window(id))
        } else {
            needs_script(probe, NO_MOVE@)
        },
        Operation::ResizeWindow => needs_script(probe, NO_RESIZE@),
        Operation::MinimizeWindow => if bound {
            Ok(Plan::Protocol)
        } else {
            Ok(Plan::Script)
        },
        Operation::UnminimizeWindow => if bound {
            Ok(Plan::Protocol)
        } else {
            Ok(Plan::Script)
        },
        Operation::CloseWindow => if bound {
            Ok(Plan::Protocol)
        } else {
            Ok(Plan::Script)
        },
        Operation::MaximizeWindow => Ok(Plan::Script),
        Operation::SetWindowGeometry => Ok(Plan::Script),
        Operation::MoveWindowToWorkspace => Ok(Plan::Script),
        Operation::ListMonitors => Ok(Plan::Script),
        Operation::ActivateWorkspace => if x11 {
            target_plan(x11_workspace(id))
        } else {
            Ok(script_or_native(probe))
        },
        Operation::Subscribe => if x11 {
            Ok(Plan::Ewmh)
        } else {
            Ok(script_or_native(probe))
        },
    }
}

/// The view of a plan.
pub open spec fn plan_view(r: Result<Plan, AgentShellError>) -> Result<Plan, ErrorView> {
    match r {
        Ok(p) => Ok(p),
        Err(e) => Err(e@),
    }
}

/// The view of an optional probe result.
pub open spec fn opt_probe(p: Option<Result<(), KWinError>>) -> Option<Result<(), KWinErrorView>> {
    match p {
        None => None,
        Some(r) => Some(probe_view(r)),
    }
}

fn script_plan(probe: Option<Result<(), KWinError>>, missing: &str) -> (r: Result<
    Plan,
    AgentShellError,
>)
    ensures
        plan_view(r) == needs_script(opt_probe(probe), missing@),
{
    match probe {
        None => Ok(Plan::Probe),
        Some(Ok(_)) => Ok(Plan::Script),
        Some(Err(KWinError::ScriptingUnavailable(_))) => Err(
            AgentShellError::NotImplemented(owned(missing)),
        ),
        Some(Err(e)) => Err(e.to_shell_error()),
    }
}

impl KWinCompositor {
    /// The X11 window that an identifier denotes: the decimal number that the
    /// window list shows.
    pub fn x11_window_id(id: &WindowId) -> (r: Result<u32, AgentShellError>)
        ensures
            match r {
                Ok(n) => x11_window(id.native_id@) == Ok::<u32, ErrorView>(n),
                Err(e) => x11_window(id.native_id@) == Err::<u32, ErrorView>(e@),
            },
    {
        match read_u32(id.native_id.as_str()) {
            Some(n) => Ok(n),
            None => Err(
                AgentShellError::WindowNotFound(cat("invalid window id: ", id.native_id.as_str())),
            ),
        }
    }

    /// The X11 desktop that an identifier denotes, counted from zero.
    pub fn x11_workspace_id(id: &WorkspaceId) -> (r: Result<u32, AgentShellError>)
        ensures
            match r {
                Ok(n) => x11_workspace(id.native_id@) == Ok::<u32, ErrorView>(n),
                Err(e) => x11_workspace(id.native_id@) == Err::<u32, ErrorView>(e@),
            },
    {
        match read_u32(id.native_id.as_str()) {
            Some(n) => Ok(n),
            None => Err(
                AgentShellError::Other(cat("invalid workspace id: ", id.native_id.as_str())),
            ),
        }
    }

    /// The channel for an operation. `id` is the native identifier that the
    /// operation is about, `probe` the result of a scripting probe if one was
    /// made.
    pub fn plan(
        &self,
        op: Operation,
        id: &str,
        probe: Option<Result<(), KWinError>>,
    ) -> (r: Result<Plan, AgentShellError>)
        ensures
            plan_view(r) == plan_for(
                op,
                self.x11,
                self.window_mgmt_bound(),
                id@,
                opt_probe(probe),
            ),
    {
        let bound = self.has_window_mgmt();
        match op {
            Operation::ListWindows | Operation::ListWorkspaces => {
                if self.x11 {
                    return Ok(Plan::Ewmh);
                }
                Ok(
                    match probe {
                        None => Plan::Probe,
                        Some(Ok(_)) => Plan::Script,
                        Some(Err(KWinError::ScriptingUnavailable(_))) => Plan::Native,
                        Some(Err(_)) => Plan::NativeThenScript,
                    },
                )
            },
            Operation::GetActiveWindow => if self.x11 {
                Ok(Plan::Ewmh)
            } else {
                Ok(Plan::Script)
            },
            Operation::FocusWindow | Operation::MoveWindow => {
                if self.x11 {
                    return match read_u32(id) {
                        Some(n) => Ok(Plan::EwmhTarget(n)),
                        None => Err(AgentShellError::WindowNotFound(cat("invalid window id: ", id))),
                    };
                }
                if op == Operation::MoveWindow {
                    script_plan(probe, NO_MOVE)
                } else if bound {
                    Ok(Plan::Protocol)
                } else {
                    script_plan(probe, NO_FOCUS)
                }
            },
            Operation::ResizeWindow => script_plan(probe, NO_RESIZE),
            Operation::MinimizeWindow | Operation::UnminimizeWindow | Operation::CloseWindow => {
                if bound {
                    Ok(Plan::Protocol)
                } else {
                    Ok(Plan::Script)
                }
            },
            Operation::MaximizeWindow
            | Operation::SetWindowGeometry
            | Operation::MoveWindowToWorkspace
            | Operation::ListMonitors => Ok(Plan::Script),
            Operation::ActivateWorkspace | Operation::Subscribe => {
                if self.x11 {
                    if op == Operation::Subscribe {
                        return Ok(Plan::Ewmh);
                    }
                    return match read_u32(id) {
                        Some(n) => Ok(Plan::EwmhTarget(n)),
                        None => Err(AgentShellError::Other(cat("invalid workspace id: ", id))),
                    };
                }
                Ok(
                    match probe {
                        None => Plan::Probe,
                        Some(Ok(_)) => Plan::Script,
                        Some(Err(_)) => Plan::Native,
                    },
                )
            },
        }
    }
}

/// Windows and desktops of an X11 session can be addressed by the identifiers
/// that the lists show.
pub proof fn law_x11_ids_round_trip(n: u32)
    ensures
        x11_window(dec(n as nat)) == Ok::<u32, ErrorView>(n),
        x11_workspace(dec(n as nat)) == Ok::<u32, ErrorView>(n),
{
    crate::text::law_read_unsigned_of_dec(n as nat, u32::MAX as nat);
}

/// KWin being out of reach is never reported as a missing capability: the error
/// of the probe comes through.
pub proof fn law_transient_failure_is_handed_on(
    op: Operation,
    bound: bool,
    id: Seq<char>,
    m: Seq<char>,
)
    requires
        op == Operation::MoveWindow || op == Operation::ResizeWindow || (op
            == Operation::FocusWindow && !bound),
    ensures
        plan_for(op, false, bound, id, Some(Err(KWinErrorView::Scripting(m)))) == Err::<
            Plan,
            ErrorView,
        >(ErrorView::DBus("kwin scripting: "@ + m)),
{
}

/// Where scripting is missing for sure, lists never fall back on a script.
pub proof fn law_missing_scripting_uses_native_only(id: Seq<char>, bound: bool, m: Seq<char>)
    ensures
        plan_for(
            Operation::ListWindows,
            false,
            bound,
            id,
            Some(Err(KWinErrorView::ScriptingUnavailable(m))),
        ) == Ok::<Plan, ErrorView>(Plan::Native),
        plan_for(
            Operation::ListWorkspaces,
            false,
            bound,
            id,
            Some(Err(KWinErrorView::ScriptingUnavailable(m))),
        ) == Ok::<Plan, ErrorView>(Plan::Native),
{
}

// ---------------------------------------------------------------------------
// Calling scripts
// ---------------------------------------------------------------------------
/// A script call: what to do with which window or workspace.
pub enum ScriptCall {
    Focus { id: String },
    Move { id: String, x: i32, y: i32 },
    Resize { id: String, w: i32, h: i32 },
    Minimize { id: String, on: bool },
    Maximize { id: String },
    Close { id: String },
    SetGeometry { id: String, geo: Rect },
    SwitchWorkspace { ws: String },
    MoveToWorkspace { id: String, ws: String },
}

/// An argument of a script.
#[verifier::ext_equal]
pub enum ArgView {
    Text(Seq<char>),
    Number(int),
    Other,
}

/// What an argument says.
pub open spec fn arg_view(j: Json) -> ArgView {
    match j {
        Json::Str(s) => ArgView::Text(s@),
        Json::Number(n) => match n.integer() {
            Some(i) => ArgView::Number(i as int),
            None => ArgView::Other,
        },
        _ => ArgView::Other,
    }
}

/// What a list of arguments says.
pub open spec fn arg_views(v: Seq<(&str, Json)>) -> Seq<(Seq<char>, ArgView)> {
    Seq::new(v.len(), |i: int| (v[i].0@, arg_view(v[i].1)))
}

/// 1 for true, 0 for false.
pub open spec fn switch(on: bool) -> int {
    if on {
        1
    } else {
        0
    }
}

impl ScriptCall {
    /// The template of the call.
    pub open spec fn uses(self) -> ScriptTemplate {
        match self {
            ScriptCall::Focus { .. } => ScriptTemplate::FocusWindow,
            ScriptCall::Move { .. } => ScriptTemplate::MoveWindow,
            ScriptCall::Resize { .. } => ScriptTemplate::ResizeWindow,
            ScriptCall::Minimize { .. } => ScriptTemplate::MinimizeWindow,
            ScriptCall::Maximize { .. } => ScriptTemplate::MaximizeWindow,
            ScriptCall::Close { .. } => ScriptTemplate::CloseWindow,
            ScriptCall::SetGeometry { .. } => ScriptTemplate::SetWindowGeometry,
            ScriptCall::SwitchWorkspace { .. } => ScriptTemplate::SwitchWorkspace,
            ScriptCall::MoveToWorkspace { .. } => ScriptTemplate::MoveWindowToWorkspace,
        }
    }

    /// The arguments of the call.
    pub open spec fn passes(self) -> Seq<(Seq<char>, ArgView)> {
        match self {
            ScriptCall::Focus { id } => seq![("ID"@, ArgView::Text(id@))],
            ScriptCall::Move { id, x, y } => seq![
                ("ID"@, ArgView::Text(id@)),
                ("X"@, ArgView::Number(x as int)),
                ("Y"@, ArgView::Number(y as int)),
            ],
            ScriptCall::Resize { id, w, h } => seq![
                ("ID"@, ArgView::Text(id@)),
                ("W"@, ArgView::Number(w as int)),
                ("H"@, ArgView::Number(h as int)),
            ],
            ScriptCall::Minimize { id, on } => seq![
                ("ID"@, ArgView::Text(id@)),
                ("NUM"@, ArgView::Number(switch(on))),
            ],
            ScriptCall::Maximize { id } => seq![
                ("ID"@, ArgView::Text(id@)),
                ("NUM"@, ArgView::Number(1)),
            ],
            ScriptCall::Close { id } => seq![("ID"@, ArgView::Text(id@))],
            ScriptCall::SetGeometry { id, geo } => seq![
                ("ID"@, ArgView::Text(id@)),
                ("X"@, ArgView::Number(geo.x as int)),
                ("Y"@, ArgView::Number(geo.y as int)),
                ("W"@, ArgView::Number(geo.width as int)),
                ("H"@, ArgView::Number(geo.height as int)),
            ],
            ScriptCall::SwitchWorkspace { ws } => seq![("WS"@, ArgView::Text(ws@))],
            ScriptCall::MoveToWorkspace { id, ws } => seq![
                ("ID"@, ArgView::Text(id@)),
                ("WS"@, ArgView::Text(ws@)),
            ],
        }
    }

    /// The template and the arguments of the call.
    pub fn arguments(&self) -> (r: (ScriptTemplate, Vec<(&'static str, Json)>))
        ensures
            r.0 == self.uses(),
            arg_views(r.1@) == self.passes(),
    {
        let mut args: Vec<(&'static str, Json)> = Vec::new();
        let tpl = match self {
            ScriptCall::Focus { id } => {
                args.push(("ID", text_json(id.as_str())));
                ScriptTemplate::FocusWindow
            },
            ScriptCall::Move { id, x, y } => {
                args.push(("ID", text_json(id.as_str())));
                args.push(("X", int_json(*x as i64)));
                args.push(("Y", int_json(*y as i64)));
                ScriptTemplate::MoveWindow
            },
            ScriptCall::Resize { id, w, h } => {
                args.push(("ID", text_json(id.as_str())));
                args.push(("W", int_json(*w as i64)));
                args.push(("H", int_json(*h as i64)));
                ScriptTemplate::ResizeWindow
            },
            ScriptCall::Minimize { id, on } => {
                args.push(("ID", text_json(id.as_str())));
                args.push(
                    (
                        "NUM",
                        int_json(
                            if *on {
                                1
                            } else {
                                0
                            },
                        ),
                    ),
                );
                ScriptTemplate::MinimizeWindow
            },
            ScriptCall::Maximize { id } => {
                args.push(("ID", text_json(id.as_str())));
                args.push(("NUM", int_json(1)));
                ScriptTemplate::MaximizeWindow
            },
            ScriptCall::Close { id } => {
                args.push(("ID", text_json(id.as_str())));
                ScriptTemplate::CloseWindow
            },
            ScriptCall::SetGeometry { id, geo } => {
                args.push(("ID", text_json(id.as_str())));
                args.push(("X", int_json(geo.x as i64)));
                args.push(("Y", int_json(geo.y as i64)));
                args.push(("W", int_json(geo.width as i64)));
                args.push(("H", int_json(geo.height as i64)));
                ScriptTemplate::SetWindowGeometry
            },
            ScriptCall::SwitchWorkspace { ws } => {
                args.push(("WS", text_json(ws.as_str())));
                ScriptTemplate::SwitchWorkspace
            },
            ScriptCall::MoveToWorkspace { id, ws } => {
                args.push(("ID", text_json(id.as_str())));
                args.push(("WS", text_json(ws.as_str())));
                ScriptTemplate::MoveWindowToWorkspace
            },
        };
        assert(arg_views(args@) =~= self.passes());
        (tpl, args)
    }
}

// ---------------------------------------------------------------------------
// Reading what scripts send
// ---------------------------------------------------------------------------
/// The window type behind the name that a script sends.
pub open spec fn type_of_name(name: Option<Seq<char>>) -> WindowType {
    match name {
        None => WindowType::Unknown,
        Some(n) => if n == "normal"@ {
            WindowType::Normal
        } else if n == "dialog"@ {
            WindowType::Dialog
        } else if n == "dock"@ {
            WindowType::Dock
        } else if n == "desktop"@ {
            WindowType::Desktop
        } else if n == "dropdown_menu"@ || n == "menu"@ {
            WindowType::DropdownMenu
        } else if n == "tooltip"@ {
            WindowType::Tooltip
        } else if n == "notification"@ {
            WindowType::Notification
        } else if n == "splash"@ {
            WindowType::Splash
        } else if n == "utility"@ {
            WindowType::Utility
        } else {
            WindowType::Unknown
        },
    }
}

/// The window type behind the name that a script sends.
pub fn parse_window_type(v: Option<&Json>) -> (r: WindowType)
    ensures
        r == type_of_name(
            match v {
                Some(j) => j.str(),
                None => None,
            },
        ),
{
    let n = match v {
        Some(j) => match j.as_str() {
            Some(n) => n,
            None => return WindowType::Unknown,
        },
        None => return WindowType::Unknown,
    };
    if same(n, "normal") {
        WindowType::Normal
    } else if same(n, "dialog") {
        WindowType::Dialog
    } else if same(n, "dock") {
        WindowType::Dock
    } else if same(n, "desktop") {
        WindowType::Desktop
    } else if same(n, "dropdown_menu") || same(n, "menu") {
        WindowType::DropdownMenu
    } else if same(n, "tooltip") {
        WindowType::Tooltip
    } else if same(n, "notification") {
        WindowType::Notification
    } else if same(n, "splash") {
        WindowType::Splash
    } else if same(n, "utility") {
        WindowType::Utility
    } else {
        WindowType::Unknown
    }
}

/// `b`, or false.
pub open spec fn on(b: Option<bool>) -> bool {
    b == Some(true)
}

fn is_on(b: Option<bool>) -> (r: bool)
    ensures
        r == on(b),
{
    match b {
        Some(x) => x,
        None => false,
    }
}

/// The desktop behind a number; a negative one stands for none.
pub open spec fn desktop_id(d: Option<i64>) -> Option<crate::types::IdView> {
    match d {
        Some(n) => if n >= 0 {
            Some(kde(dec(n as nat)))
        } else {
            None
        },
        None => None,
    }
}

/// The window that a script describes. Without an identifier there is none.
pub open spec fn scripted_window(v: Json, stacking_order: u32) -> Option<WindowView> {
    match v.str_of("id"@) {
        None => None,
        Some(id) => Some(
            WindowView {
                id: kde(id),
                title: or_empty(v.str_of("title"@)),
                app_id: or_empty(v.str_of("appId"@)),
                pid: low_u32(v.uint_of("pid"@)),
                geometry: rect_in(v.at("geometry"@)),
                frame_geometry: rect_in(v.at("frameGeometry"@)),
                states: flagged_states(
                    on(v.bool_of("minimized"@)),
                    on(v.bool_of("maximized"@)),
                    on(v.bool_of("fullscreen"@)),
                ),
                workspace_id: desktop_id(v.int_of("desktop"@)),
                monitor_id: None,
                stacking_order,
                desktop_file: not_empty(v.str_of("desktopFile"@)),
                window_type: type_of_name(v.str_of("windowType"@)),
                icon_geometry: None,
                keep_above: on(v.bool_of("keepAbove"@)),
            },
        ),
    }
}

/// The windows among the items of a reply, each with its position as its
/// stacking order.
pub open spec fn scripted_windows(items: Seq<Json>) -> Seq<WindowView>
    decreases items.len(),
{
    if items.len() == 0 {
        Seq::empty()
    } else {
        let front = scripted_windows(items.drop_last());
        match scripted_window(items.last(), (items.len() - 1) as u32) {
            Some(w) => front.push(w),
            None => front,
        }
    }
}

/// The items of an array; anything else has none.
pub open spec fn items_or_none(v: Json) -> Seq<Json> {
    match v.items() {
        Some(a) => a,
        None => Seq::empty(),
    }
}

/// The workspace that a script describes.
pub open spec fn scripted_workspace(d: Json) -> WorkspaceView {
    WorkspaceView {
        id: kde(or_empty(d.str_of("id"@))),
        name: or_empty(d.str_of("name"@)),
        number: low_u32(d.uint_of("number"@)),
        is_active: on(d.bool_of("isActive"@)),
        monitor_ids: Seq::empty(),
        window_ids: Seq::empty(),
    }
}

/// The monitor that a script describes.
pub open spec fn scripted_monitor(m: Json) -> MonitorView {
    MonitorView {
        id: kde(or_empty(m.str_of("id"@))),
        name: or_empty(m.str_of("name"@)),
        geometry: rect_in(m.at("geometry"@)),
        physical_geometry: zero_rect(),
        scale: m.number_of("scale"@),
        is_primary: on(m.bool_of("isPrimary"@)),
        workspace_id: None,
    }
}

impl KWinCompositor {
    /// The window that a script describes.
    pub fn parse_window(v: &Json, stacking_order: u32) -> (r: Option<WindowInfo>)
        ensures
            opt_view(r) == scripted_window(*v, stacking_order),
    {
        let id = match v.get_str("id") {
            Some(s) => owned(s),
            None => return None,
        };
        let states = states_from_flags(
            is_on(v.get_bool("minimized")),
            is_on(v.get_bool("maximized")),
            is_on(v.get_bool("fullscreen")),
        );
        let workspace_id = match v.get_i64("desktop") {
            Some(d) => if d >= 0 {
                Some(WorkspaceId { native_id: dec_of(d as u64), de_type: DesktopEnvironment::KDE })
            } else {
                None
            },
            None => None,
        };
        let desktop_file = match v.get_str("desktopFile") {
            Some(f) => if f.is_empty() {
                None
            } else {
                Some(owned(f))
            },
            None => None,
        };
        let w = WindowInfo {
            id: WindowId { native_id: id, de_type: DesktopEnvironment::KDE },
            title: or_blank(v.get_str("title")),
            app_id: or_blank(v.get_str("appId")),
            pid: u32_or_zero(v.get_u64("pid")),
            geometry: read_rect(v.get("geometry")),
            frame_geometry: read_rect(v.get("frameGeometry")),
            states,
            workspace_id,
            monitor_id: None,
            stacking_order,
            desktop_file,
            window_type: parse_window_type(v.get("windowType")),
            icon_geometry: None,
            keep_above: is_on(v.get_bool("keepAbove")),
        };
        assert(Some(w@) =~= scripted_window(*v, stacking_order));
        Some(w)
    }

    /// Whether an action succeeded, from what its script sent.
    pub fn check_op(v: &Json) -> (r: Result<(), KWinError>)
        ensures
            match r {
                Ok(_) => on(v.bool_of("success"@)),
                Err(e) => !on(v.bool_of("success"@)) && e@ == KWinErrorView::Scripting(
                    "op failed: "@ + (match v.str_of("error"@) {
                        Some(m) => m,
                        None => "unknown"@,
                    }),
                ),
            },
    {
        if is_on(v.get_bool("success")) {
            return Ok(());
        }
        let why = match v.get_str("error") {
            Some(m) => m,
            None => "unknown",
        };
        Err(KWinError::Scripting(cat("op failed: ", why)))
    }

    /// The windows that the list script sent.
    pub fn windows_from_script(v: &Json) -> (r: Vec<WindowInfo>)
        ensures
            views(r@) == scripted_windows(items_or_none(*v)),
    {
        broadcast use lemma_views_push;

        let mut out: Vec<WindowInfo> = Vec::new();
        let items = match v.as_array() {
            Some(a) => a,
            None => {
                assert(views(out@) =~= scripted_windows(items_or_none(*v)));
                return out;
            },
        };
        let mut i: usize = 0;
        assert(views(out@) =~= scripted_windows(items@.take(0)));
        while i < items.len()
            invariant
                i <= items.len(),
                views(out@) == scripted_windows(items@.take(i as int)),
            decreases items.len() - i,
        {
            assert(items@.take(i as int + 1).drop_last() =~= items@.take(i as int));
            let order: u32 = #[verifier::truncate] (i as u32);
            if let Some(w) = Self::parse_window(&items[i], order) {
                out.push(w);
            }
            i = i + 1;
        }
        assert(items@.take(i as int) =~= items@);
        out
    }

    /// The active window that the script sent; null stands for none.
    pub fn active_from_script(v: &Json) -> (r: Option<WindowInfo>)
        ensures
            opt_view(r) == (if *v == Json::Null {
                None
            } else {
                scripted_window(*v, 0)
            }),
    {
        match v {
            Json::Null => None,
            _ => Self::parse_window(v, 0),
        }
    }

    /// The workspaces that the list script sent.
    pub fn workspaces_from_script(v: &Json) -> (r: Vec<WorkspaceInfo>)
        ensures
            views(r@) == items_or_none(*v).map_values(|d: Json| scripted_workspace(d)),
    {
        broadcast use lemma_views_push;

        let mut out: Vec<WorkspaceInfo> = Vec::new();
        let ghost all = items_or_none(*v).map_values(|d: Json| scripted_workspace(d));
        let items = match v.as_array() {
            Some(a) => a,
            None => {
                assert(views(out@) =~= all);
                return out;
            },
        };
        let mut i: usize = 0;
        while i < items.len()
            invariant
                i <= items.len(),
                all == items@.map_values(|d: Json| scripted_workspace(d)),
                views(out@) == all.take(i as int),
            decreases items.len() - i,
        {
            let d = &items[i];
            let w = WorkspaceInfo {
                id: WorkspaceId {
                    native_id: or_blank(d.get_str("id")),
                    de_type: DesktopEnvironment::KDE,
                },
                name: or_blank(d.get_str("name")),
                number: u32_or_zero(d.get_u64("number")),
                is_active: is_on(d.get_bool("isActive")),
                monitor_ids: Vec::new(),
                window_ids: Vec::new(),
            };
            assert(w@ =~= scripted_workspace(*d));
            let ghost had = views(out@);
            out.push(w);
            assert(views(out@) == had.push(all[i as int]));
            i = i + 1;
            assert(views(out@) =~= all.take(i as int));
        }
        assert(all.take(i as int) =~= all);
        out
    }

    /// The monitors that the list script sent.
    pub fn monitors_from_script(v: &Json) -> (r: Vec<MonitorInfo>)
        ensures
            views(r@) == items_or_none(*v).map_values(|m: Json| scripted_monitor(m)),
    {
        broadcast use lemma_views_push;

        let mut out: Vec<MonitorInfo> = Vec::new();
        let ghost all = items_or_none(*v).map_values(|m: Json| scripted_monitor(m));
        let items = match v.as_array() {
            Some(a) => a,
            None => {
                assert(views(out@) =~= all);
                return out;
            },
        };
        let mut i: usize = 0;
        while i < items.len()
            invariant
                i <= items.len(),
                all == items@.map_values(|m: Json| scripted_monitor(m)),
                views(out@) == all.take(i as int),
            decreases items.len() - i,
        {
            let m = &items[i];
            let info = MonitorInfo {
                id: MonitorId {
                    native_id: or_blank(m.get_str("id")),
                    de_type: DesktopEnvironment::KDE,
                },
                name: or_blank(m.get_str("name")),
                geometry: read_rect(m.get("geometry")),
                physical_geometry: Rect { x: 0, y: 0, width: 0, height: 0 },
                scale: m.get_number("scale"),
                is_primary: is_on(m.get_bool("isPrimary")),
                workspace_id: None,
            };
            assert(info@ =~= scripted_monitor(*m));
            let ghost had = views(out@);
            out.push(info);
            assert(views(out@) == had.push(all[i as int]));
            i = i + 1;
            assert(views(out@) =~= all.take(i as int));
        }
        assert(all.take(i as int) =~= all);
        out
    }
}

} // verus!
