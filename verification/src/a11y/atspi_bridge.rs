//! What is made of the answers on the accessibility bus.

use vstd::prelude::*;

use crate::a11y::tree::{
    ApplicationNode, ApplicationView, AtspiRole, AtspiState, ElementNode, ElementView, WindowNode,
    WindowNodeView,
};
use crate::text::{among, cat, cat3, contains, dec, dec_of, has_text, owned, texts};
use crate::types::{opt_view, views, AgentShellError, ErrorView};

verus! {

/// The registry on the accessibility bus.
pub const REGISTRY_SERVICE: &'static str = "org.a11y.atspi.Registry";

/// The object above all applications.
pub const ROOT_PATH: &'static str = "/org/a11y/atspi/accessible/root";

/// The service on the session bus that knows the address of the accessibility
/// bus.
pub const BUS_SERVICE: &'static str = "org.a11y.Bus";

/// Extents in coordinates of the screen.
pub const COORD_TYPE_SCREEN: u32 = 0;

/// How deep the tree is searched.
pub const MAX_TRAVERSE_DEPTH: u8 = 24;

/// How long a call on the session bus may take, in seconds.
pub const SESSION_CALL_TIMEOUT_SECS: u64 = 5;

/// The role number of a frame.
pub const ROLE_FRAME: u32 = 23;

/// The role number of a window.
pub const ROLE_WINDOW: u32 = 69;

/// Whether to ask for the address of the accessibility bus: only where its
/// service runs or can be started. Otherwise the question would hang.
pub fn should_probe_address(has_owner: bool, activatable: &Vec<String>) -> (r: bool)
    ensures
        r == (has_owner || texts(activatable@).contains(BUS_SERVICE@)),
{
    has_owner || among(activatable, BUS_SERVICE)
}

/// A step on the way to the accessibility bus.
#[derive(Clone, Copy, Debug, PartialEq, Eq, Structural)]
pub enum ConnectStep {
    SessionBus,
    DaemonProxy,
    BusName,
    NameHasOwner,
    ListActivatable,
    BusProxy,
    BusAddress,
    Dial,
}

/// The name under which a failed step is reported.
pub open spec fn step_label(s: ConnectStep) -> Seq<char> {
    match s {
        ConnectStep::SessionBus => "session bus: "@,
        ConnectStep::DaemonProxy => "DBusProxy: "@,
        ConnectStep::BusName => "bad bus name: "@,
        ConnectStep::NameHasOwner => "NameHasOwner: "@,
        ConnectStep::ListActivatable => "ListActivatableNames: "@,
        ConnectStep::BusProxy => "org.a11y.Bus: "@,
        ConnectStep::BusAddress => "a11y bus addr: "@,
        ConnectStep::Dial => "a11y bus dial: "@,
    }
}

/// The error of a failed step: whatever fails, the component is unavailable.
pub fn connect_error(s: ConnectStep, e: &str) -> (r: AgentShellError)
    ensures
        r@ == ErrorView::BackendUnavailable(step_label(s) + e@),
{
    let label = match s {
        ConnectStep::SessionBus => "session bus: ",
        ConnectStep::DaemonProxy => "DBusProxy: ",
        ConnectStep::BusName => "bad bus name: ",
        ConnectStep::NameHasOwner => "NameHasOwner: ",
        ConnectStep::ListActivatable => "ListActivatableNames: ",
        ConnectStep::BusProxy => "org.a11y.Bus: ",
        ConnectStep::BusAddress => "a11y bus addr: ",
        ConnectStep::Dial => "a11y bus dial: ",
    };
    AgentShellError::BackendUnavailable(cat(label, e))
}

/// The error where the accessibility bus neither runs nor can be started.
pub fn not_activatable() -> (r: AgentShellError)
    ensures
        r@ == ErrorView::BackendUnavailable(
            "org.a11y.Bus not owned and not activatable; AT-SPI support disabled"@,
        ),
{
    AgentShellError::BackendUnavailable(
        owned("org.a11y.Bus not owned and not activatable; AT-SPI support disabled"),
    )
}

/// The error of a failed call.
pub fn call_error(what: &str, e: &str) -> (r: AgentShellError)
    ensures
        r@ == ErrorView::DBus("atspi "@ + what@ + ": "@ + e@),
{
    let head = cat3("atspi ", what, ": ");
    AgentShellError::DBus(cat(head.as_str(), e))
}

/// The states in the words of an answer; words that are missing are zero.
pub open spec fn states_in(words: Seq<u32>) -> u64 {
    AtspiState::of_pair(
        if words.len() > 0 {
            words[0]
        } else {
            0
        },
        if words.len() > 1 {
            words[1]
        } else {
            0
        },
    )
}

/// The reading of the accessibility bus. The calls are made by the caller; here
/// stands what their answers mean.
#[derive(Debug)]
pub struct AtspiBridge {}

impl AtspiBridge {
    /// The states in the words of an answer.
    pub fn get_state(words: &Vec<u32>) -> (r: AtspiState)
        ensures
            r.0 == states_in(words@),
    {
        let low: u32 = if words.len() > 0 {
            words[0]
        } else {
            0
        };
        let high: u32 = if words.len() > 1 {
            words[1]
        } else {
            0
        };
        AtspiState::from_pair(low, high)
    }
}

/// The description of an object declares an interface, with its quotes escaped or
/// not.
pub open spec fn declares(xml: Seq<char>, interface: Seq<char>) -> bool {
    contains(xml, "interface name=\\\""@ + interface + "\\\""@) || contains(
        xml,
        "interface name=\""@ + interface + "\""@,
    )
}

impl AtspiBridge {
    /// Whether an object has an interface, by its description; an object that cannot
    /// be described has none.
    pub fn has_interface_public(xml: Option<&str>, interface: &str) -> (r: bool)
        ensures
            r == (xml matches Some(x) && declares(x@, interface@)),
    {
        let xml = match xml {
            Some(x) => x,
            None => return false,
        };
        let escaped = cat3("interface name=\\\"", interface, "\\\"");
        let plain = cat3("interface name=\"", interface, "\"");
        has_text(xml, escaped.as_str()) || has_text(xml, plain.as_str())
    }
}

/// The text, or the empty one where it could not be read.
pub open spec fn name_or_empty(r: Result<String, AgentShellError>) -> Seq<char> {
    match r {
        Ok(s) => s@,
        Err(_) => Seq::empty(),
    }
}

fn name_or_blank(r: Result<String, AgentShellError>) -> (out: String)
    ensures
        out@ == name_or_empty(r),
{
    match r {
        Ok(s) => s,
        Err(_) => String::new(),
    }
}

/// The application behind a child of the root; the registry itself, which does
/// not have the interface of an application, is none.
pub fn application_of(
    bus_name: String,
    path: String,
    has_interface: bool,
    name: Result<String, AgentShellError>,
    pid: Option<u32>,
) -> (r: Option<ApplicationNode>)
    ensures
        opt_view(r) == (if has_interface {
            Some(
                ApplicationView {
                    bus_name: bus_name@,
                    path: path@,
                    name: name_or_empty(name),
                    pid,
                },
            )
        } else {
            None
        }),
{
    if has_interface {
        Some(ApplicationNode { bus_name, path, name: name_or_blank(name), pid })
    } else {
        None
    }
}

/// The first application of a process.
pub open spec fn application_with(apps: Seq<ApplicationView>, pid: u32) -> Option<ApplicationView>
    decreases apps.len(),
{
    if apps.len() == 0 {
        None
    } else if apps[0].pid == Some(pid) {
        Some(apps[0])
    } else {
        application_with(apps.skip(1), pid)
    }
}

impl AtspiBridge {
    /// The application of a process.
    pub fn get_app_tree(apps: &Vec<ApplicationNode>, pid: u32) -> (r: Result<
        ApplicationNode,
        AgentShellError,
    >)
        ensures
            match application_with(views(apps@), pid) {
                Some(a) => r matches Ok(x) && x@ == a,
                None => r matches Err(e) && e@ == ErrorView::WindowNotFound("PID "@ + dec(pid as nat)),
            },
    {
        let ghost all = views(apps@);
        let mut i: usize = 0;
        assert(all.skip(0) =~= all);
        while i < apps.len()
            invariant
                i <= apps.len(),
                all == views(apps@),
                application_with(all, pid) == application_with(all.skip(i as int), pid),
            decreases apps.len() - i,
        {
            assert(all[i as int] == apps@[i as int]@);
            if let Some(p) = apps[i].pid {
                if p == pid {
                    return Ok(apps[i].clone());
                }
            }
            assert(all.skip(i as int).skip(1) =~= all.skip(i as int + 1));
            i = i + 1;
        }
        let n = dec_of(pid as u64);
        Err(AgentShellError::WindowNotFound(cat("PID ", n.as_str())))
    }
}

/// The object still exists.
pub open spec fn alive(s: AtspiState) -> bool {
    !s.includes(AtspiState::DEFUNCT)
}

/// Whether the object still exists.
pub fn is_alive(s: AtspiState) -> (r: bool)
    ensures
        r == alive(s),
{
    !s.contains(AtspiState(AtspiState::DEFUNCT))
}

/// The window behind a child of an application: one that still exists and has the
/// role of a frame or of a window.
pub fn window_of(
    bus_name: String,
    path: String,
    states: AtspiState,
    role: AtspiRole,
    name: Result<String, AgentShellError>,
) -> (r: Option<WindowNode>)
    ensures
        opt_view(r) == (if alive(states) && (role.code == ROLE_FRAME || role.code == ROLE_WINDOW) {
            Some(
                WindowNodeView { bus_name: bus_name@, path: path@, name: name_or_empty(name), states },
            )
        } else {
            None
        }),
{
    if is_alive(states) && (role.code == ROLE_FRAME || role.code == ROLE_WINDOW) {
        Some(WindowNode { bus_name, path, name: name_or_blank(name), states })
    } else {
        None
    }
}

impl AtspiBridge {
    /// The element for a window, with its role and name read anew.
    pub fn window_as_element(
        window: &WindowNode,
        role: Result<AtspiRole, AgentShellError>,
        name: Result<String, AgentShellError>,
    ) -> (r: Result<ElementNode, AgentShellError>)
        ensures
            match role {
                Err(e) => r == Err::<ElementNode, AgentShellError>(e),
                Ok(x) => r matches Ok(el) && el@ == (ElementView {
                    bus_name: window@.bus_name,
                    path: window@.path,
                    name: name_or_empty(name),
                    role: x@,
                    states: window@.states,
                }),
            },
    {
        match role {
            Err(e) => Err(e),
            Ok(role) => Ok(
                ElementNode {
                    bus_name: window.bus_name.clone(),
                    path: window.path.clone(),
                    name: name_or_blank(name),
                    role,
                    states: window.states,
                },
            ),
        }
    }
}

/// The element behind a child. One that vanishes while it is read is passed over,
/// as is one that is already gone.
pub fn child_of(
    bus_name: String,
    path: String,
    states: Result<AtspiState, AgentShellError>,
    role: Result<AtspiRole, AgentShellError>,
    name: Result<String, AgentShellError>,
) -> (r: Option<ElementNode>)
    ensures
        opt_view(r) == (match (states, role, name) {
            (Ok(s), Ok(x), Ok(n)) => if alive(s) {
                Some(
                    ElementView {
                        bus_name: bus_name@,
                        path: path@,
                        name: n@,
                        role: x@,
                        states: s,
                    },
                )
            } else {
                None
            },
            _ => None,
        }),
{
    match (states, role, name) {
        (Ok(states), Ok(role), Ok(name)) => if is_alive(states) {
            Some(ElementNode { bus_name, path, name, role, states })
        } else {
            None
        },
        _ => None,
    }
}

/// The window is active or has the focus.
pub open spec fn active(w: WindowNodeView) -> bool {
    w.states.includes(AtspiState::ACTIVE) || w.states.includes(AtspiState::FOCUSED)
}

/// The window is shown.
pub open spec fn showing(w: WindowNodeView) -> bool {
    w.states.includes(AtspiState::SHOWING)
}

/// The first window for which `p` holds.
pub open spec fn first_window(ws: Seq<WindowNodeView>, p: spec_fn(WindowNodeView) -> bool) -> Option<
    WindowNodeView,
>
    decreases ws.len(),
{
    if ws.len() == 0 {
        None
    } else if p(ws[0]) {
        Some(ws[0])
    } else {
        first_window(ws.skip(1), p)
    }
}

/// The active window: the first that says so, or else the first that is shown.
pub open spec fn active_window(ws: Seq<WindowNodeView>) -> Option<WindowNodeView> {
    match first_window(ws, |w: WindowNodeView| active(w)) {
        Some(w) => Some(w),
        None => first_window(ws, |w: WindowNodeView| showing(w)),
    }
}

impl AtspiBridge {
    /// The active window. Some toolkits never say that a window is active; then the
    /// first window that is shown stands in for it.
    pub fn get_active_window(windows: &Vec<WindowNode>) -> (r: Result<WindowNode, AgentShellError>)
        ensures
            match active_window(views(windows@)) {
                Some(w) => r matches Ok(x) && x@ == w,
                None => r matches Err(e) && e@ == ErrorView::WindowNotFound("no active window"@),
            },
    {
        let ghost all = views(windows@);
        let ghost is_active = |w: WindowNodeView| active(w);
        let ghost is_showing = |w: WindowNodeView| showing(w);
        let mut i: usize = 0;
        assert(all.skip(0) =~= all);
        while i < windows.len()
            invariant
                i <= windows.len(),
                all == views(windows@),
                is_active == (|w: WindowNodeView| active(w)),
                first_window(all, is_active) == first_window(all.skip(i as int), is_active),
            decreases windows.len() - i,
        {
            assert(all[i as int] == windows@[i as int]@);
            if windows[i].states.contains(AtspiState(AtspiState::ACTIVE))
                || windows[i].states.contains(AtspiState(AtspiState::FOCUSED)) {
                return Ok(windows[i].clone());
            }
            assert(all.skip(i as int).skip(1) =~= all.skip(i as int + 1));
            i = i + 1;
        }
        let mut k: usize = 0;
        while k < windows.len()
            invariant
                k <= windows.len(),
                all == views(windows@),
                is_active == (|w: WindowNodeView| active(w)),
                is_showing == (|w: WindowNodeView| showing(w)),
                first_window(all, is_active) is None,
                first_window(all, is_showing) == first_window(all.skip(k as int), is_showing),
            decreases windows.len() - k,
        {
            assert(all[k as int] == windows@[k as int]@);
            if windows[k].states.contains(AtspiState(AtspiState::SHOWING)) {
                return Ok(windows[k].clone());
            }
            assert(all.skip(k as int).skip(1) =~= all.skip(k as int + 1));
            k = k + 1;
        }
        Err(AgentShellError::WindowNotFound(owned("no active window")))
    }
}

/// A window that says it is active is never passed over for one that is only
/// shown.
pub proof fn law_active_goes_before_shown(ws: Seq<WindowNodeView>, k: int)
    requires
        0 <= k < ws.len(),
        active(ws[k]),
    ensures
        active_window(ws) matches Some(w) && active(w),
{
    lemma_first_window(ws, |w: WindowNodeView| active(w), k);
}

proof fn lemma_first_window(ws: Seq<WindowNodeView>, p: spec_fn(WindowNodeView) -> bool, k: int)
    requires
        0 <= k < ws.len(),
        p(ws[k]),
    ensures
        first_window(ws, p) matches Some(w) && p(w),
    decreases ws.len(),
{
    if !p(ws[0]) {
        assert(ws.skip(1)[k - 1] == ws[k]);
        lemma_first_window(ws.skip(1), p, k - 1);
    }
}

} // verus!
