//! Types shared by all components: windows, workspaces, monitors, events,
//! errors and health reports, each with its mathematical view.

use vstd::prelude::*;

use crate::text::{opt_text, same};

verus! {

/// The views of the items of a sequence.
pub open spec fn views<T: View>(s: Seq<T>) -> Seq<T::V> {
    Seq::new(s.len(), |i: int| s[i]@)
}

/// The view of an optional value.
pub open spec fn opt_view<T: View>(o: Option<T>) -> Option<T::V> {
    match o {
        Some(x) => Some(x@),
        None => None,
    }
}

/// Appending an item appends its view.
pub broadcast proof fn lemma_views_push<T: View>(s: Seq<T>, x: T)
    ensures
        #[trigger] views(s.push(x)) == views(s).push(x@),
{
    assert(views(s.push(x)) =~= views(s).push(x@));
}

/// A desktop environment, as the origin of native identifiers.
#[derive(Clone, Copy, Debug, PartialEq, Eq, Hash, Structural)]
pub enum DesktopEnvironment {
    GNOME,
    KDE,
    Hyprland,
    Sway,
}

/// A rectangle in screen coordinates.
#[derive(Clone, Copy, Debug, PartialEq, Eq, Structural)]
pub struct Rect {
    pub x: i32,
    pub y: i32,
    pub width: i32,
    pub height: i32,
}

/// The rectangle with all fields zero.
pub open spec fn zero_rect() -> Rect {
    Rect { x: 0, y: 0, width: 0, height: 0 }
}

impl Default for Rect {
    fn default() -> (r: Rect)
        ensures
            r == zero_rect(),
    {
        Rect { x: 0, y: 0, width: 0, height: 0 }
    }
}

/// Integer halving that rounds towards zero.
pub open spec fn half(n: int) -> int {
    if n >= 0 {
        n / 2
    } else {
        -((-n) / 2)
    }
}

impl Rect {
    /// The centre lies inside the coordinate range.
    pub open spec fn center_fits(self) -> bool {
        &&& i32::MIN <= self.x + half(self.width as int) <= i32::MAX
        &&& i32::MIN <= self.y + half(self.height as int) <= i32::MAX
    }

    /// The point in the middle of the rectangle, rounded towards its origin.
    pub fn center(&self) -> (r: (i32, i32))
        requires
            self.center_fits(),
        ensures
            r.0 == self.x + half(self.width as int),
            r.1 == self.y + half(self.height as int),
    {
        let x: i64 = self.x as i64 + halved(self.width);
        let y: i64 = self.y as i64 + halved(self.height);
        (x as i32, y as i32)
    }
}

fn halved(n: i32) -> (r: i64)
    ensures
        r == half(n as int),
{
    if n >= 0 {
        (n / 2) as i64
    } else {
        let m: i64 = 0 - (n as i64);
        0 - (m / 2)
    }
}

/// What an identity says: the native identifier and where it comes from.
#[verifier::ext_equal]
pub struct IdView {
    pub native_id: Seq<char>,
    pub de_type: DesktopEnvironment,
}

/// The identity of a window.
#[derive(Debug, PartialEq, Eq, Hash)]
pub struct WindowId {
    pub native_id: String,
    pub de_type: DesktopEnvironment,
}

impl View for WindowId {
    type V = IdView;

    open spec fn view(&self) -> IdView {
        IdView { native_id: self.native_id@, de_type: self.de_type }
    }
}

impl Clone for WindowId {
    fn clone(&self) -> (r: WindowId)
        ensures
            r@ == self@,
    {
        WindowId { native_id: self.native_id.clone(), de_type: self.de_type }
    }
}

impl WindowId {
    /// Whether both identities are the same.
    pub fn same_as(&self, other: &WindowId) -> (r: bool)
        ensures
            r == (self@ == other@),
    {
        self.de_type == other.de_type && same(self.native_id.as_str(), other.native_id.as_str())
    }
}

/// The identity of a workspace.
#[derive(Debug, PartialEq, Eq, Hash)]
pub struct WorkspaceId {
    pub native_id: String,
    pub de_type: DesktopEnvironment,
}

impl View for WorkspaceId {
    type V = IdView;

    open spec fn view(&self) -> IdView {
        IdView { native_id: self.native_id@, de_type: self.de_type }
    }
}

impl Clone for WorkspaceId {
    fn clone(&self) -> (r: WorkspaceId)
        ensures
            r@ == self@,
    {
        WorkspaceId { native_id: self.native_id.clone(), de_type: self.de_type }
    }
}

impl WorkspaceId {
    /// Whether both identities are the same.
    pub fn same_as(&self, other: &WorkspaceId) -> (r: bool)
        ensures
            r == (self@ == other@),
    {
        self.de_type == other.de_type && same(self.native_id.as_str(), other.native_id.as_str())
    }
}

/// The identity of a monitor.
#[derive(Debug, PartialEq, Eq, Hash)]
pub struct MonitorId {
    pub native_id: String,
    pub de_type: DesktopEnvironment,
}

impl View for MonitorId {
    type V = IdView;

    open spec fn view(&self) -> IdView {
        IdView { native_id: self.native_id@, de_type: self.de_type }
    }
}

impl Clone for MonitorId {
    fn clone(&self) -> (r: MonitorId)
        ensures
            r@ == self@,
    {
        MonitorId { native_id: self.native_id.clone(), de_type: self.de_type }
    }
}

impl MonitorId {
    /// Whether both identities are the same.
    pub fn same_as(&self, other: &MonitorId) -> (r: bool)
        ensures
            r == (self@ == other@),
    {
        self.de_type == other.de_type && same(self.native_id.as_str(), other.native_id.as_str())
    }
}

/// A state that a window can be in; a window can be in several.
#[derive(Clone, Copy, Debug, PartialEq, Eq, Structural)]
pub enum WindowState {
    Normal,
    Minimized,
    Maximized,
    FullScreen,
    Hidden,
}

/// The role of a window on the desktop.
#[derive(Clone, Copy, Debug, PartialEq, Eq, Structural)]
pub enum WindowType {
    Normal,
    Desktop,
    Dock,
    Dialog,
    Utility,
    Splash,
    DropdownMenu,
    Tooltip,
    Notification,
    Unknown,
}

/// A window.
#[derive(Debug, PartialEq, Eq)]
pub struct WindowInfo {
    pub id: WindowId,
    pub title: String,
    pub app_id: String,
    pub pid: u32,
    pub geometry: Rect,
    pub frame_geometry: Rect,
    pub states: Vec<WindowState>,
    pub workspace_id: Option<WorkspaceId>,
    pub monitor_id: Option<MonitorId>,
    pub stacking_order: u32,
    pub desktop_file: Option<String>,
    pub window_type: WindowType,
    pub icon_geometry: Option<Rect>,
    pub keep_above: bool,
}

/// What is known of a window.
#[verifier::ext_equal]
pub struct WindowView {
    pub id: IdView,
    pub title: Seq<char>,
    pub app_id: Seq<char>,
    pub pid: u32,
    pub geometry: Rect,
    pub frame_geometry: Rect,
    pub states: Seq<WindowState>,
    pub workspace_id: Option<IdView>,
    pub monitor_id: Option<IdView>,
    pub stacking_order: u32,
    pub desktop_file: Option<Seq<char>>,
    pub window_type: WindowType,
    pub icon_geometry: Option<Rect>,
    pub keep_above: bool,
}

impl View for WindowInfo {
    type V = WindowView;

    open spec fn view(&self) -> WindowView {
        WindowView {
            id: self.id@,
            title: self.title@,
            app_id: self.app_id@,
            pid: self.pid,
            geometry: self.geometry,
            frame_geometry: self.frame_geometry,
            states: self.states@,
            workspace_id: opt_view(self.workspace_id),
            monitor_id: opt_view(self.monitor_id),
            stacking_order: self.stacking_order,
            desktop_file: opt_text(self.desktop_file),
            window_type: self.window_type,
            icon_geometry: self.icon_geometry,
            keep_above: self.keep_above,
        }
    }
}

impl Clone for WindowInfo {
    fn clone(&self) -> (r: WindowInfo)
        ensures
            r@ == self@,
    {
        let r = WindowInfo {
            id: self.id.clone(),
            title: self.title.clone(),
            app_id: self.app_id.clone(),
            pid: self.pid,
            geometry: self.geometry,
            frame_geometry: self.frame_geometry,
            states: copy_states(&self.states),
            workspace_id: match &self.workspace_id {
                Some(w) => Some(w.clone()),
                None => None,
            },
            monitor_id: match &self.monitor_id {
                Some(m) => Some(m.clone()),
                None => None,
            },
            stacking_order: self.stacking_order,
            desktop_file: match &self.desktop_file {
                Some(f) => Some(f.clone()),
                None => None,
            },
            window_type: self.window_type,
            icon_geometry: self.icon_geometry,
            keep_above: self.keep_above,
        };
        r
    }
}

/// The same states again.
pub fn copy_states(v: &Vec<WindowState>) -> (r: Vec<WindowState>)
    ensures
        r@ == v@,
{
    let mut out: Vec<WindowState> = Vec::new();
    let mut i: usize = 0;
    while i < v.len()
        invariant
            i <= v.len(),
            out@ == v@.take(i as int),
        decreases v.len() - i,
    {
        out.push(v[i]);
        i = i + 1;
        assert(out@ =~= v@.take(i as int));
    }
    assert(v@.take(i as int) =~= v@);
    out
}

/// Whether `x` is one of the states.
pub fn has_state(v: &Vec<WindowState>, x: WindowState) -> (r: bool)
    ensures
        r == v@.contains(x),
{
    let mut i: usize = 0;
    while i < v.len()
        invariant
            i <= v.len(),
            forall|j: int| 0 <= j < i ==> v@[j] != x,
        decreases v.len() - i,
    {
        if v[i] == x {
            return true;
        }
        i = i + 1;
    }
    false
}

/// Copies of the windows.
pub fn copy_windows(v: &Vec<WindowInfo>) -> (r: Vec<WindowInfo>)
    ensures
        views(r@) == views(v@),
{
    broadcast use lemma_views_push;

    let mut out: Vec<WindowInfo> = Vec::new();
    let mut i: usize = 0;
    while i < v.len()
        invariant
            i <= v.len(),
            views(out@) == views(v@).take(i as int),
        decreases v.len() - i,
    {
        let ghost had = views(out@);
        out.push(v[i].clone());
        assert(views(out@) == had.push(views(v@)[i as int]));
        i = i + 1;
        assert(views(out@) =~= views(v@).take(i as int));
    }
    assert(views(v@).take(i as int) =~= views(v@));
    out
}

/// The first window with an identity.
pub open spec fn find_window(ws: Seq<WindowView>, id: IdView) -> Option<WindowView>
    decreases ws.len(),
{
    if ws.len() == 0 {
        None
    } else if ws[0].id == id {
        Some(ws[0])
    } else {
        find_window(ws.skip(1), id)
    }
}

/// All windows but those with an identity.
pub open spec fn without_window(ws: Seq<WindowView>, id: IdView) -> Seq<WindowView> {
    ws.filter(|w: WindowView| w.id != id)
}

/// The first window with an identity.
pub fn pick_window(ws: &Vec<WindowInfo>, id: &WindowId) -> (r: Option<WindowInfo>)
    ensures
        opt_view(r) == find_window(views(ws@), id@),
{
    let ghost all = views(ws@);
    let mut i: usize = 0;
    assert(all.skip(0) =~= all);
    while i < ws.len()
        invariant
            i <= ws.len(),
            all == views(ws@),
            find_window(all, id@) == find_window(all.skip(i as int), id@),
        decreases ws.len() - i,
    {
        assert(all[i as int] == ws@[i as int]@);
        if ws[i].id.same_as(id) {
            return Some(ws[i].clone());
        }
        assert(all.skip(i as int).skip(1) =~= all.skip(i as int + 1));
        i = i + 1;
    }
    None
}

/// The window with an identity in a list, or the error that none has it.
pub fn window_in_list(list: Result<Vec<WindowInfo>, AgentShellError>, id: &WindowId) -> (r: Result<
    WindowInfo,
    AgentShellError,
>)
    ensures
        match list {
            Err(e) => r == Err::<WindowInfo, AgentShellError>(e),
            Ok(ws) => match find_window(views(ws@), id@) {
                Some(w) => r matches Ok(x) && x@ == w,
                None => r matches Err(e) && e@ == ErrorView::WindowNotFound(id@.native_id),
            },
        },
{
    match list {
        Err(e) => Err(e),
        Ok(ws) => match pick_window(&ws, id) {
            Some(w) => Ok(w),
            None => Err(AgentShellError::WindowNotFound(id.native_id.clone())),
        },
    }
}

/// A workspace.
#[derive(Debug, PartialEq, Eq)]
pub struct WorkspaceInfo {
    pub id: WorkspaceId,
    pub name: String,
    pub number: u32,
    pub is_active: bool,
    pub monitor_ids: Vec<MonitorId>,
    pub window_ids: Vec<WindowId>,
}

/// What is known of a workspace.
#[verifier::ext_equal]
pub struct WorkspaceView {
    pub id: IdView,
    pub name: Seq<char>,
    pub number: u32,
    pub is_active: bool,
    pub monitor_ids: Seq<IdView>,
    pub window_ids: Seq<IdView>,
}

impl View for WorkspaceInfo {
    type V = WorkspaceView;

    open spec fn view(&self) -> WorkspaceView {
        WorkspaceView {
            id: self.id@,
            name: self.name@,
            number: self.number,
            is_active: self.is_active,
            monitor_ids: views(self.monitor_ids@),
            window_ids: views(self.window_ids@),
        }
    }
}

/// A monitor. The scale factor is kept as the decimal text in which it was
/// reported; `None` stands for the neutral factor.
#[derive(Debug, PartialEq, Eq)]
pub struct MonitorInfo {
    pub id: MonitorId,
    pub name: String,
    pub geometry: Rect,
    pub physical_geometry: Rect,
    pub scale: Option<String>,
    pub is_primary: bool,
    pub workspace_id: Option<WorkspaceId>,
}

/// What is known of a monitor.
#[verifier::ext_equal]
pub struct MonitorView {
    pub id: IdView,
    pub name: Seq<char>,
    pub geometry: Rect,
    pub physical_geometry: Rect,
    pub scale: Option<Seq<char>>,
    pub is_primary: bool,
    pub workspace_id: Option<IdView>,
}

impl View for MonitorInfo {
    type V = MonitorView;

    open spec fn view(&self) -> MonitorView {
        MonitorView {
            id: self.id@,
            name: self.name@,
            geometry: self.geometry,
            physical_geometry: self.physical_geometry,
            scale: opt_text(self.scale),
            is_primary: self.is_primary,
            workspace_id: opt_view(self.workspace_id),
        }
    }
}

/// The channel that an event came through.
#[derive(Clone, Copy, Debug, PartialEq, Eq, Structural)]
pub enum EventSource {
    Hyprland,
    KWinWayland,
    KWinX11,
    MutterExtension,
    Sway,
}

/// A change on the desktop.
#[derive(Debug, PartialEq, Eq)]
#[allow(inconsistent_fields)]
pub enum DesktopEvent {
    WindowOpened { info: WindowInfo, source: EventSource },
    WindowClosed { id: WindowId, source: EventSource },
    WindowFocused { info: WindowInfo, source: EventSource },
    WindowMoved { id: WindowId, geometry: Rect, source: EventSource },
    WindowMetadataChanged {
        id: WindowId,
        title: Option<String>,
        app_id: Option<String>,
        source: EventSource,
    },
    WorkspaceChanged { info: WorkspaceInfo, source: EventSource },
    WorkspaceListChanged { workspaces: Vec<WorkspaceInfo>, source: EventSource },
    FullscreenChanged { enabled: bool, window_id: Option<WindowId>, source: EventSource },
}

/// What an event says.
#[verifier::ext_equal]
#[allow(inconsistent_fields)]
pub enum EventView {
    WindowOpened { info: WindowView, source: EventSource },
    WindowClosed { id: IdView, source: EventSource },
    WindowFocused { info: WindowView, source: EventSource },
    WindowMoved { id: IdView, geometry: Rect, source: EventSource },
    WindowMetadataChanged {
        id: IdView,
        title: Option<Seq<char>>,
        app_id: Option<Seq<char>>,
        source: EventSource,
    },
    WorkspaceChanged { info: WorkspaceView, source: EventSource },
    WorkspaceListChanged { workspaces: Seq<WorkspaceView>, source: EventSource },
    FullscreenChanged { enabled: bool, window_id: Option<IdView>, source: EventSource },
}

impl View for DesktopEvent {
    type V = EventView;

    open spec fn view(&self) -> EventView {
        match *self {
            DesktopEvent::WindowOpened { info, source } => EventView::WindowOpened {
                info: info@,
                source,
            },
            DesktopEvent::WindowClosed { id, source } => EventView::WindowClosed { id: id@, source },
            DesktopEvent::WindowFocused { info, source } => EventView::WindowFocused {
                info: info@,
                source,
            },
            DesktopEvent::WindowMoved { id, geometry, source } => EventView::WindowMoved {
                id: id@,
                geometry,
                source,
            },
            DesktopEvent::WindowMetadataChanged { id, title, app_id, source } =>
                EventView::WindowMetadataChanged {
                id: id@,
                title: opt_text(title),
                app_id: opt_text(app_id),
                source,
            },
            DesktopEvent::WorkspaceChanged { info, source } => EventView::WorkspaceChanged {
                info: info@,
                source,
            },
            DesktopEvent::WorkspaceListChanged { workspaces, source } =>
                EventView::WorkspaceListChanged { workspaces: views(workspaces@), source },
            DesktopEvent::FullscreenChanged { enabled, window_id, source } =>
                EventView::FullscreenChanged { enabled, window_id: opt_view(window_id), source },
        }
    }
}

/// The error that all components report.
#[derive(Debug, PartialEq, Eq)]
pub enum AgentShellError {
    /// The backend does not offer the operation.
    NotImplemented(String),
    /// The backend cannot be reached.
    BackendUnavailable(String),
    /// A call on the message bus or an equivalent channel failed.
    DBus(String),
    /// No such window or element.
    WindowNotFound(String),
    /// The operation is not permitted.
    Permission(String),
    /// No answer in time.
    Timeout(String),
    /// Any other failure.
    Other(String),
}

/// What an error says.
#[verifier::ext_equal]
pub enum ErrorView {
    NotImplemented(Seq<char>),
    BackendUnavailable(Seq<char>),
    DBus(Seq<char>),
    WindowNotFound(Seq<char>),
    Permission(Seq<char>),
    Timeout(Seq<char>),
    Other(Seq<char>),
}

impl ErrorView {
    /// The text that the error carries.
    pub open spec fn message(self) -> Seq<char> {
        match self {
            ErrorView::NotImplemented(m) => m,
            ErrorView::BackendUnavailable(m) => m,
            ErrorView::DBus(m) => m,
            ErrorView::WindowNotFound(m) => m,
            ErrorView::Permission(m) => m,
            ErrorView::Timeout(m) => m,
            ErrorView::Other(m) => m,
        }
    }
}

impl View for AgentShellError {
    type V = ErrorView;

    open spec fn view(&self) -> ErrorView {
        match *self {
            AgentShellError::NotImplemented(m) => ErrorView::NotImplemented(m@),
            AgentShellError::BackendUnavailable(m) => ErrorView::BackendUnavailable(m@),
            AgentShellError::DBus(m) => ErrorView::DBus(m@),
            AgentShellError::WindowNotFound(m) => ErrorView::WindowNotFound(m@),
            AgentShellError::Permission(m) => ErrorView::Permission(m@),
            AgentShellError::Timeout(m) => ErrorView::Timeout(m@),
            AgentShellError::Other(m) => ErrorView::Other(m@),
        }
    }
}

impl AgentShellError {
    /// The text that the error carries.
    pub fn message(&self) -> (r: String)
        ensures
            r@ == self@.message(),
    {
        match self {
            AgentShellError::NotImplemented(m) => m.clone(),
            AgentShellError::BackendUnavailable(m) => m.clone(),
            AgentShellError::DBus(m) => m.clone(),
            AgentShellError::WindowNotFound(m) => m.clone(),
            AgentShellError::Permission(m) => m.clone(),
            AgentShellError::Timeout(m) => m.clone(),
            AgentShellError::Other(m) => m.clone(),
        }
    }
}

/// The view of a result that carries a list of items.
pub open spec fn res_views<T: View>(r: Result<Vec<T>, AgentShellError>) -> Result<
    Seq<T::V>,
    ErrorView,
> {
    match r {
        Ok(x) => Ok(views(x@)),
        Err(e) => Err(e@),
    }
}

/// The view of a result without a value.
pub open spec fn unit_view(r: Result<(), AgentShellError>) -> Result<(), ErrorView> {
    match r {
        Ok(_) => Ok(()),
        Err(e) => Err(e@),
    }
}

/// How well a component works.
#[derive(Debug, PartialEq, Eq)]
pub enum ComponentHealth {
    Healthy,
    Degraded(String),
    Unavailable,
}

/// What a health report says.
#[verifier::ext_equal]
pub enum HealthView {
    Healthy,
    Degraded(Seq<char>),
    Unavailable,
}

impl View for ComponentHealth {
    type V = HealthView;

    open spec fn view(&self) -> HealthView {
        match *self {
            ComponentHealth::Healthy => HealthView::Healthy,
            ComponentHealth::Degraded(reason) => HealthView::Degraded(reason@),
            ComponentHealth::Unavailable => HealthView::Unavailable,
        }
    }
}

/// What a compositor backend can do.
#[derive(Clone, Copy, Debug, PartialEq, Eq, Structural)]
pub struct BackendCapabilities {
    pub window_management: bool,
    pub workspace_management: bool,
    pub monitor_layout: bool,
    pub window_events: bool,
    pub workspace_events: bool,
    pub native_input: bool,
    pub native_capture: bool,
    pub virtual_desktops: bool,
    pub effects_control: bool,
}

// ---------------------------------------------------------------------------
// Laws
// ---------------------------------------------------------------------------
/// What a filter keeps is what is there and fits.
pub proof fn lemma_filter_keeps<A>(s: Seq<A>, p: spec_fn(A) -> bool, x: A)
    ensures
        s.filter(p).contains(x) <==> s.contains(x) && p(x),
    decreases s.len(),
{
    reveal(Seq::filter);
    if s.len() > 0 {
        let front = s.drop_last();
        lemma_filter_keeps(front, p, x);
        let kept = front.filter(p);
        if s.filter(p).contains(x) {
            let k = choose|k: int| 0 <= k < s.filter(p).len() && s.filter(p)[k] == x;
            if k < kept.len() {
                assert(kept[k] == x);
                let j = choose|j: int| 0 <= j < front.len() && front[j] == x;
                assert(s[j] == x);
            } else {
                assert(s[s.len() - 1] == x);
            }
        }
        if s.contains(x) && p(x) {
            let k = choose|k: int| 0 <= k < s.len() && s[k] == x;
            if k < front.len() {
                assert(front[k] == x);
                let j = choose|j: int| 0 <= j < kept.len() && kept[j] == x;
                assert(s.filter(p)[j] == x);
            } else {
                assert(s.filter(p)[kept.len() as int] == x);
            }
        }
    }
}

/// A window is found by its identity if and only if it is there, and of several the
/// first one is.
pub proof fn law_window_is_found_by_its_identity(ws: Seq<WindowView>, id: IdView)
    ensures
        match find_window(ws, id) {
            Some(w) => exists|i: int|
                0 <= i < ws.len() && #[trigger] ws[i] == w && w.id == id && forall|k: int|
                    0 <= k < i ==> (#[trigger] ws[k]).id != id,
            None => forall|i: int| 0 <= i < ws.len() ==> (#[trigger] ws[i]).id != id,
        },
    decreases ws.len(),
{
    if ws.len() > 0 && ws[0].id != id {
        let rest = ws.skip(1);
        law_window_is_found_by_its_identity(rest, id);
        match find_window(rest, id) {
            Some(w) => {
                let i = choose|i: int|
                    0 <= i < rest.len() && #[trigger] rest[i] == w && w.id == id && forall|k: int|
                        0 <= k < i ==> (#[trigger] rest[k]).id != id;
                assert(ws[i + 1] == w);
                assert forall|k: int| 0 <= k < i + 1 implies (#[trigger] ws[k]).id != id by {
                    if k > 0 {
                        assert(rest[k - 1] == ws[k]);
                    }
                }
            },
            None => {
                assert forall|i: int| 0 <= i < ws.len() implies (#[trigger] ws[i]).id != id by {
                    if i > 0 {
                        assert(rest[i - 1] == ws[i]);
                    }
                }
            },
        }
    } else if ws.len() > 0 {
        assert(ws[0] == find_window(ws, id)->0);
    }
}

/// Taking a window away takes away every window with its identity and no other one.
pub proof fn law_only_the_window_is_taken_away(ws: Seq<WindowView>, id: IdView, w: WindowView)
    ensures
        without_window(ws, id).contains(w) <==> ws.contains(w) && w.id != id,
{
    lemma_filter_keeps(ws, |x: WindowView| x.id != id, w);
}

/// The centre of a rectangle is as far from one side as from the other, but for
/// the half that integers cannot hold.
pub proof fn law_centre_is_in_the_middle(r: Rect)
    requires
        r.width >= 0,
        r.height >= 0,
    ensures
        ({
            let left = half(r.width as int);
            let right = r.width - left;
            let above = half(r.height as int);
            let below = r.height - above;
            left <= right <= left + 1 && above <= below <= above + 1
        }),
{
}

/// Halving rounds towards zero on both sides of it: what is left over has the sign of the
/// number and is smaller than two.
pub proof fn law_halving_rounds_towards_zero(n: int)
    ensures
        half(-n) == -half(n),
        n >= 0 ==> 0 <= n - 2 * half(n) < 2,
        n <= 0 ==> -2 < n - 2 * half(n) <= 0,
{
}

} // verus!
