//! The second window channel: the shell extension.

use vstd::prelude::*;

use crate::json::{parse, parsed, Json};
use crate::mutter::error::{
    MutterError, MutterErrorView, AGENTSHELL_IFACE, AGENTSHELL_PATH, EXTENSION_ID,
};
use crate::mutter::parse::{
    gnome_id, items_or_none, reported_window, reported_windows, window, windows,
};
use crate::text::{
    cat, cat3, contains, dec, dec_of, has_text, owned, read_u32, read_unsigned, same,
};
use crate::types::{
    opt_view, views, zero_rect, DesktopEnvironment, DesktopEvent, EventSource, EventView, Rect,
    WindowId, WindowInfo, WindowState, WindowType, WindowView,
};

verus! {

/// What came of looking at the extension's object.
pub enum IntrospectReply {
    /// The object could not be asked.
    Failed(String),
    /// The description of the object.
    Description(String),
}

/// The client of the shell extension.
#[derive(Debug)]
pub struct ExtensionRunner {}

/// The error for a failed call, with what to do about it.
pub open spec fn call_error(e: Seq<char>) -> MutterErrorView {
    MutterErrorView::Extension(
        AGENTSHELL_IFACE@ + " call failed: "@ + e + " (install & enable extension `"@
            + EXTENSION_ID@ + "`)"@,
    )
}

/// Whether the extension is there.
pub open spec fn extension_probe(reply: IntrospectReply) -> Result<(), MutterErrorView> {
    match reply {
        IntrospectReply::Failed(e) => Err(call_error(e@)),
        IntrospectReply::Description(xml) => if contains(xml@, AGENTSHELL_IFACE@) {
            Ok(())
        } else {
            Err(
                MutterErrorView::Extension(
                    AGENTSHELL_PATH@ + " present but "@ + AGENTSHELL_IFACE@ + " not advertised"@,
                ),
            )
        },
    }
}

/// The view of a call's outcome.
pub open spec fn call_view(r: Result<String, String>) -> Result<Seq<char>, Seq<char>> {
    match r {
        Ok(s) => Ok(s@),
        Err(e) => Err(e@),
    }
}

/// The windows in the answer to `ListWindows`.
pub open spec fn listed(answer: Result<Seq<char>, Seq<char>>) -> Result<
    Seq<WindowView>,
    MutterErrorView,
> {
    match answer {
        Err(e) => Err(call_error(e)),
        Ok(raw) => match parsed(raw) {
            Ok(j) => Ok(reported_windows(items_or_none(j))),
            Err(e) => Err(MutterErrorView::Extension("ListWindows returned invalid JSON: "@ + e)),
        },
    }
}

/// The window in the answer to `GetActiveWindow`; an empty answer means that no
/// window has the focus.
pub open spec fn active(answer: Result<Seq<char>, Seq<char>>) -> Result<
    Option<WindowView>,
    MutterErrorView,
> {
    match answer {
        Err(e) => Err(call_error(e)),
        Ok(raw) => if raw.len() == 0 {
            Ok(None)
        } else {
            match parsed(raw) {
                Err(e) => Err(MutterErrorView::Extension("GetActiveWindow invalid JSON: "@ + e)),
                Ok(j) => match reported_window(j, 0) {
                    Some(w) => Ok(Some(w)),
                    None => Err(
                        MutterErrorView::Extension("GetActiveWindow payload missing window id"@),
                    ),
                },
            }
        },
    }
}

/// The number that the extension knows a window by.
pub open spec fn extension_id(id: Seq<char>) -> Result<nat, MutterErrorView> {
    match read_unsigned(id, u32::MAX as nat) {
        Some(n) => Ok(n),
        None => Err(MutterErrorView::Extension("non-numeric window id `"@ + id + "` rejected"@)),
    }
}

/// The number that the extension knows a window by; anything but a 32-bit number
/// is refused.
pub fn parse_u32(native_id: &str) -> (r: Result<u32, MutterError>)
    ensures
        match r {
            Ok(n) => extension_id(native_id@) == Ok::<nat, MutterErrorView>(n as nat),
            Err(e) => extension_id(native_id@) == Err::<nat, MutterErrorView>(e@),
        },
{
    match read_u32(native_id) {
        Some(n) => Ok(n),
        None => Err(MutterError::Extension(cat3("non-numeric window id `", native_id, "` rejected"))),
    }
}

impl ExtensionRunner {
    pub fn new() -> (r: ExtensionRunner) {
        ExtensionRunner {  }
    }

    /// The error for a failed call, with what to do about it.
    pub fn proxy_err(e: &str) -> (r: MutterError)
        ensures
            r@ == call_error(e@),
    {
        let head = cat3(AGENTSHELL_IFACE, " call failed: ", e);
        let tail = cat3(" (install & enable extension `", EXTENSION_ID, "`)");
        let r = MutterError::Extension(cat(head.as_str(), tail.as_str()));
        proof {
            let a = AGENTSHELL_IFACE@ + " call failed: "@ + e@;
            assert(a + (" (install & enable extension `"@ + EXTENSION_ID@ + "`)"@) =~= a
                + " (install & enable extension `"@ + EXTENSION_ID@ + "`)"@);
        }
        r
    }

    /// Whether the extension is there.
    pub fn probe(&self, reply: &IntrospectReply) -> (r: Result<(), MutterError>)
        ensures
            match r {
                Ok(_) => extension_probe(*reply) is Ok,
                Err(e) => extension_probe(*reply) == Err::<(), MutterErrorView>(e@),
            },
    {
        match reply {
            IntrospectReply::Failed(e) => Err(ExtensionRunner::proxy_err(e.as_str())),
            IntrospectReply::Description(xml) => if has_text(xml.as_str(), AGENTSHELL_IFACE) {
                Ok(())
            } else {
                let head = cat3(AGENTSHELL_PATH, " present but ", AGENTSHELL_IFACE);
                Err(MutterError::Extension(cat(head.as_str(), " not advertised")))
            },
        }
    }

    /// The windows in the answer to `ListWindows`.
    pub fn list_windows(&self, answer: &Result<String, String>) -> (r: Result<
        Vec<WindowInfo>,
        MutterError,
    >)
        ensures
            match r {
                Ok(v) => listed(call_view(*answer)) == Ok::<Seq<WindowView>, MutterErrorView>(
                    views(v@),
                ),
                Err(e) => listed(call_view(*answer)) == Err::<Seq<WindowView>, MutterErrorView>(e@),
            },
    {
        match answer {
            Err(e) => Err(ExtensionRunner::proxy_err(e.as_str())),
            Ok(raw) => match parse(raw.as_str()) {
                Ok(j) => Ok(windows(&j)),
                Err(e) => Err(
                    MutterError::Extension(cat("ListWindows returned invalid JSON: ", e.as_str())),
                ),
            },
        }
    }

    /// The window in the answer to `GetActiveWindow`.
    pub fn get_active_window(&self, answer: &Result<String, String>) -> (r: Result<
        Option<WindowInfo>,
        MutterError,
    >)
        ensures
            match r {
                Ok(w) => active(call_view(*answer)) == Ok::<Option<WindowView>, MutterErrorView>(
                    opt_view(w),
                ),
                Err(e) => active(call_view(*answer)) == Err::<Option<WindowView>, MutterErrorView>(
                    e@,
                ),
            },
    {
        let raw = match answer {
            Err(e) => return Err(ExtensionRunner::proxy_err(e.as_str())),
            Ok(raw) => raw,
        };
        if raw.as_str().is_empty() {
            return Ok(None);
        }
        match parse(raw.as_str()) {
            Err(e) => Err(MutterError::Extension(cat("GetActiveWindow invalid JSON: ", e.as_str()))),
            Ok(j) => match window(&j, 0) {
                Some(w) => Ok(Some(w)),
                None => Err(
                    MutterError::Extension(owned("GetActiveWindow payload missing window id")),
                ),
            },
        }
    }

    /// The outcome of a call that returns nothing.
    pub fn call_done(&self, answer: Result<(), String>) -> (r: Result<(), MutterError>)
        ensures
            match answer {
                Ok(_) => r is Ok,
                Err(e) => r matches Err(x) && x@ == call_error(e@),
            },
    {
        match answer {
            Ok(_) => Ok(()),
            Err(e) => Err(ExtensionRunner::proxy_err(e.as_str())),
        }
    }
}

/// What a message from the bus carries.
pub enum SignalBody {
    Text(String),
    Number(u32),
    Other,
}

/// A message from the bus, as far as events depend on it.
pub struct BusMessage {
    pub is_signal: bool,
    pub interface: Option<String>,
    pub member: String,
    pub body: SignalBody,
}

/// The window that stands for "no window has the focus": its identifier is empty.
pub open spec fn no_focus() -> WindowView {
    WindowView {
        id: gnome_id(Seq::empty()),
        title: Seq::empty(),
        app_id: Seq::empty(),
        pid: 0,
        geometry: zero_rect(),
        frame_geometry: zero_rect(),
        states: seq![WindowState::Normal],
        workspace_id: None,
        monitor_id: None,
        stacking_order: 0,
        desktop_file: None,
        window_type: WindowType::Unknown,
        icon_geometry: None,
        keep_above: false,
    }
}

/// The window that stands for "no window has the focus".
pub fn empty_focus_placeholder() -> (r: WindowInfo)
    ensures
        r@ == no_focus(),
{
    let mut states: Vec<WindowState> = Vec::new();
    states.push(WindowState::Normal);
    let r = WindowInfo {
        id: WindowId { native_id: String::new(), de_type: DesktopEnvironment::GNOME },
        title: String::new(),
        app_id: String::new(),
        pid: 0,
        geometry: Rect { x: 0, y: 0, width: 0, height: 0 },
        frame_geometry: Rect { x: 0, y: 0, width: 0, height: 0 },
        states,
        workspace_id: None,
        monitor_id: None,
        stacking_order: 0,
        desktop_file: None,
        window_type: WindowType::Unknown,
        icon_geometry: None,
        keep_above: false,
    };
    assert(r@ =~= no_focus());
    r
}

/// The window that a signal describes.
pub open spec fn signalled(text: Seq<char>) -> Option<WindowView> {
    match parsed(text) {
        Ok(j) => reported_window(j, 0),
        Err(_) => None,
    }
}

/// The event that a message stands for, if it stands for one.
pub open spec fn event_of(m: BusMessage) -> Option<EventView> {
    let ours = m.is_signal && (m.interface matches Some(i) && i@ == AGENTSHELL_IFACE@);
    let source = EventSource::MutterExtension;
    if !ours {
        None
    } else if m.member@ == "WindowOpened"@ {
        match m.body {
            SignalBody::Text(t) => match signalled(t@) {
                Some(info) => Some(EventView::WindowOpened { info, source }),
                None => None,
            },
            _ => None,
        }
    } else if m.member@ == "ActiveWindowChanged"@ {
        match m.body {
            SignalBody::Text(t) => if t@.len() == 0 {
                Some(EventView::WindowFocused { info: no_focus(), source })
            } else {
                match signalled(t@) {
                    Some(info) => Some(EventView::WindowFocused { info, source }),
                    None => None,
                }
            },
            _ => None,
        }
    } else if m.member@ == "WindowClosed"@ {
        match m.body {
            SignalBody::Number(n) => Some(
                EventView::WindowClosed { id: gnome_id(dec(n as nat)), source },
            ),
            _ => None,
        }
    } else {
        None
    }
}

fn window_in(text: &str) -> (r: Option<WindowInfo>)
    ensures
        opt_view(r) == signalled(text@),
{
    match parse(text) {
        Ok(j) => window(&j, 0),
        Err(_) => None,
    }
}

/// The event that a message stands for; every other message is passed over.
pub fn next_event(m: &BusMessage) -> (r: Option<DesktopEvent>)
    ensures
        opt_view(r) == event_of(*m),
{
    let source = EventSource::MutterExtension;
    let ours = match &m.interface {
        Some(i) => m.is_signal && same(i.as_str(), AGENTSHELL_IFACE),
        None => false,
    };
    if !ours {
        return None;
    }
    if same(m.member.as_str(), "WindowOpened") {
        return match &m.body {
            SignalBody::Text(t) => match window_in(t.as_str()) {
                Some(info) => Some(DesktopEvent::WindowOpened { info, source }),
                None => None,
            },
            _ => None,
        };
    }
    if same(m.member.as_str(), "ActiveWindowChanged") {
        return match &m.body {
            SignalBody::Text(t) => if t.as_str().is_empty() {
                Some(DesktopEvent::WindowFocused { info: empty_focus_placeholder(), source })
            } else {
                match window_in(t.as_str()) {
                    Some(info) => Some(DesktopEvent::WindowFocused { info, source }),
                    None => None,
                }
            },
            _ => None,
        };
    }
    if same(m.member.as_str(), "WindowClosed") {
        return match &m.body {
            SignalBody::Number(n) => Some(
                DesktopEvent::WindowClosed {
                    id: WindowId {
                        native_id: dec_of(*n as u64),
                        de_type: DesktopEnvironment::GNOME,
                    },
                    source,
                },
            ),
            _ => None,
        };
    }
    None
}

/// A window keeps its name from list to close: the identifier in the event of its
/// closing is the one that its report carried as a number.
pub proof fn law_closed_id_is_reported_id(n: u32, report: Json)
    requires
        report.at("id"@) == Some(Json::Number(crate::json::JsonNumber::Pos(n as u64))),
    ensures
        reported_window(report, 0) matches Some(w) && w.id == gnome_id(dec(n as nat)),
{
}

/// Whatever window the extension reports by number, it can be asked for again by
/// the identifier of its report.
pub proof fn law_reported_id_is_accepted(n: u32)
    ensures
        extension_id(dec(n as nat)) == Ok::<nat, MutterErrorView>(n as nat),
{
    crate::text::law_read_unsigned_of_dec(n as nat, u32::MAX as nat);
}

} // verus!
