//! The event stream: one event per line, in the form `EVENT>>DATA`.

use vstd::prelude::*;

use crate::hyprland::cache::{
    fullscreen_set, id_of_address, lemma_window_position, upserted, window_id, WindowCache,
};
use crate::text::{
    cut, cut_text, opt_text, read_u32, read_unsigned, same, split_once, split_text, trim, trimmed,
};
use crate::types::{
    find_window, opt_view, without_window, zero_rect, DesktopEnvironment, DesktopEvent, EventSource,
    EventView, IdView, Rect, WindowInfo, WindowType, WindowView, WorkspaceId, WorkspaceInfo,
    WorkspaceView,
};

verus! {

/// How many events wait for a slow reader before new ones are dropped.
pub const CHANNEL_CAPACITY: usize = 256;

/// Pause before the stream is connected again, in milliseconds.
pub const RECONNECT_DELAY_MS: u64 = 1000;

/// Tells a running event task to stop.
#[derive(Debug)]
pub struct EventTaskHandle {
    stopped: bool,
}

impl EventTaskHandle {
    /// Whether the task was told to stop.
    pub closed spec fn told(self) -> bool {
        self.stopped
    }

    /// A task that runs.
    pub fn new() -> (r: EventTaskHandle)
        ensures
            !r.told(),
    {
        EventTaskHandle { stopped: false }
    }

    /// Tells the task to stop; telling it again changes nothing.
    pub fn stop(&mut self)
        ensures
            final(self).told(),
    {
        self.stopped = true;
    }

    /// Whether the task was told to stop.
    pub fn is_stopped(&self) -> (r: bool)
        ensures
            r == self.told(),
    {
        self.stopped
    }
}

/// What is known of the session, and which window has the focus.
pub struct SessionView {
    pub windows: Seq<WindowView>,
    pub focus: Seq<char>,
}

/// The part of a list in front of the first comma.
pub open spec fn first_field(s: Option<Seq<char>>) -> Option<Seq<char>> {
    match s {
        None => None,
        Some(t) => match split_once(t, ',') {
            Some(p) => Some(p.0),
            None => Some(t),
        },
    }
}

/// The part of a list behind the first comma.
pub open spec fn later_fields(s: Option<Seq<char>>) -> Option<Seq<char>> {
    match s {
        None => None,
        Some(t) => match split_once(t, ',') {
            Some(p) => Some(p.1),
            None => None,
        },
    }
}

/// `o`, or the empty text.
pub open spec fn field_text(o: Option<Seq<char>>) -> Seq<char> {
    match o {
        Some(s) => s,
        None => Seq::empty(),
    }
}

/// The number in a field, or zero.
pub open spec fn field_number(o: Option<Seq<char>>) -> u32 {
    match o {
        None => 0,
        Some(s) => match read_unsigned(trim(s), u32::MAX as nat) {
            Some(n) => n as u32,
            None => 0,
        },
    }
}

/// A window of which only the address is known.
pub open spec fn bare_window(address: Seq<char>) -> WindowView {
    WindowView {
        id: id_of_address(address),
        title: Seq::empty(),
        app_id: Seq::empty(),
        pid: 0,
        geometry: zero_rect(),
        frame_geometry: zero_rect(),
        states: Seq::empty(),
        workspace_id: None,
        monitor_id: None,
        stacking_order: 0,
        desktop_file: None,
        window_type: WindowType::Normal,
        icon_geometry: None,
        keep_above: false,
    }
}

/// The window to report as focused: the known one, or a bare one.
pub open spec fn focus_window(ws: Seq<WindowView>, address: Seq<char>) -> WindowView {
    match find_window(ws, id_of_address(address)) {
        Some(w) => w,
        None => bare_window(address),
    }
}

/// The line tells of the event `name`.
pub open spec fn tells_of(line: Seq<char>, name: Seq<char>) -> bool {
    split_text(line, ">>"@) matches Some(p) && p.0 == name
}

/// The data of a line.
pub open spec fn data_of(line: Seq<char>) -> Seq<char> {
    match split_text(line, ">>"@) {
        Some(p) => p.1,
        None => Seq::empty(),
    }
}

/// The address of the window that was opened.
pub open spec fn opened_address(data: Seq<char>) -> Seq<char> {
    trim(field_text(first_field(Some(data))))
}

/// A window was opened: `ADDRESS,WORKSPACE,CLASS,TITLE`. The title is all that
/// follows the third comma.
pub open spec fn on_open(s: SessionView, data: Seq<char>) -> (SessionView, Option<EventView>) {
    let rest1 = later_fields(Some(data));
    let rest2 = later_fields(rest1);
    let address = opened_address(data);
    let windows = upserted(
        s.windows,
        address,
        field_number(first_field(rest1)),
        field_text(first_field(rest2)),
        field_text(later_fields(rest2)),
        (s.windows.len() as u32 + 1) as u32,
    );
    (
        SessionView { windows, focus: s.focus },
        match find_window(windows, id_of_address(address)) {
            Some(info) => Some(EventView::WindowOpened { info, source: EventSource::Hyprland }),
            None => None,
        },
    )
}

/// A window was closed: `ADDRESS`.
pub open spec fn on_close(s: SessionView, data: Seq<char>) -> (SessionView, Option<EventView>) {
    let id = id_of_address(trim(data));
    (
        SessionView { windows: without_window(s.windows, id), focus: s.focus },
        Some(EventView::WindowClosed { id, source: EventSource::Hyprland }),
    )
}

/// The focus moved: `ADDRESS`, or nothing where no window has it.
pub open spec fn on_focus(s: SessionView, data: Seq<char>) -> (SessionView, Option<EventView>) {
    let address = trim(data);
    (
        SessionView { windows: s.windows, focus: address },
        if address.len() == 0 {
            None
        } else {
            Some(
                EventView::WindowFocused {
                    info: focus_window(s.windows, address),
                    source: EventSource::Hyprland,
                },
            )
        },
    )
}

/// The workspace changed: `ID,NAME`.
pub open spec fn on_workspace(s: SessionView, data: Seq<char>) -> (SessionView, Option<EventView>) {
    (
        s,
        Some(
            EventView::WorkspaceChanged {
                info: WorkspaceView {
                    id: IdView {
                        native_id: trim(field_text(first_field(Some(data)))),
                        de_type: DesktopEnvironment::Hyprland,
                    },
                    name: trim(field_text(later_fields(Some(data)))),
                    number: 0,
                    is_active: true,
                    monitor_ids: Seq::empty(),
                    window_ids: Seq::empty(),
                },
                source: EventSource::Hyprland,
            },
        ),
    )
}

/// The focused window went fullscreen, or came back: `1` or `0`.
pub open spec fn on_fullscreen(s: SessionView, data: Seq<char>) -> (
    SessionView,
    Option<EventView>,
) {
    let enabled = trim(data) == "1"@;
    if s.focus.len() == 0 {
        (s, None)
    } else {
        (
            SessionView {
                windows: fullscreen_set(s.windows, id_of_address(s.focus), enabled),
                focus: s.focus,
            },
            Some(
                EventView::FullscreenChanged {
                    enabled,
                    window_id: Some(id_of_address(s.focus)),
                    source: EventSource::Hyprland,
                },
            ),
        )
    }
}

/// What a line does to the session, and the event that it stands for. Lines of
/// another form and events of another name do nothing.
pub open spec fn on_line(s: SessionView, line: Seq<char>) -> (SessionView, Option<EventView>) {
    match split_text(line, ">>"@) {
        None => (s, None),
        Some((name, data)) => if name == "openwindow"@ {
            on_open(s, data)
        } else if name == "closewindow"@ {
            on_close(s, data)
        } else if name == "activewindowv2"@ {
            on_focus(s, data)
        } else if name == "workspacev2"@ {
            on_workspace(s, data)
        } else if name == "fullscreen"@ {
            on_fullscreen(s, data)
        } else {
            (s, None)
        },
    }
}

fn split_field(s: Option<String>) -> (r: (Option<String>, Option<String>))
    ensures
        opt_text(r.0) == first_field(opt_text(s)),
        opt_text(r.1) == later_fields(opt_text(s)),
{
    match s {
        None => (None, None),
        Some(t) => match cut(t.as_str(), ',') {
            Some(p) => (Some(p.0), Some(p.1)),
            None => (Some(t), None),
        },
    }
}

fn text_of(o: Option<String>) -> (r: String)
    ensures
        r@ == field_text(opt_text(o)),
{
    match o {
        Some(s) => s,
        None => String::new(),
    }
}

fn number_of(o: Option<String>) -> (r: u32)
    ensures
        r == field_number(opt_text(o)),
{
    match o {
        None => 0,
        Some(s) => {
            let t = trimmed(s.as_str());
            match read_u32(t.as_str()) {
                Some(n) => n,
                None => 0,
            }
        },
    }
}

/// The window to report as focused: the known one, or a bare one where the
/// window was not listed yet.
pub fn window_info_for_focus(cache: &WindowCache, addr: &str) -> (r: WindowInfo)
    ensures
        r@ == focus_window(cache@, addr@),
{
    let id = window_id(addr);
    if let Some(w) = cache.get(&id) {
        return w;
    }
    let w = WindowInfo {
        id,
        title: String::new(),
        app_id: String::new(),
        pid: 0,
        geometry: Rect { x: 0, y: 0, width: 0, height: 0 },
        frame_geometry: Rect { x: 0, y: 0, width: 0, height: 0 },
        states: Vec::new(),
        workspace_id: None,
        monitor_id: None,
        stacking_order: 0,
        desktop_file: None,
        window_type: WindowType::Normal,
        icon_geometry: None,
        keep_above: false,
    };
    assert(w@ =~= bare_window(addr@));
    w
}

/// Takes in a line of the stream: brings the known windows and the focused
/// address up to date, and returns the event that the line stands for.
pub fn parse_line(line: &str, cache: &mut WindowCache, focused_address: &mut String) -> (r: Option<
    DesktopEvent,
>)
    requires
        tells_of(line@, "openwindow"@) ==> (old(cache)@.len() as u32) < u32::MAX,
    ensures
        ({
            let next = on_line(
                SessionView { windows: old(cache)@, focus: old(focused_address)@ },
                line@,
            );
            &&& final(cache)@ == next.0.windows
            &&& final(focused_address)@ == next.0.focus
            &&& opt_view(r) == next.1
        }),
{
    let source = EventSource::Hyprland;
    let (name, data) = match cut_text(line, ">>") {
        Some(p) => p,
        None => return None,
    };
    let name = name.as_str();
    if same(name, "openwindow") {
        let (first, rest1) = split_field(Some(data));
        let (second, rest2) = split_field(rest1);
        let (third, rest3) = split_field(rest2);
        let addr = trimmed(text_of(first).as_str());
        let ws: u32 = number_of(second);
        let class = text_of(third);
        let title = text_of(rest3);
        let stacking: u32 = cache.len() as u32 + 1;
        cache.upsert_minimal(addr.as_str(), ws, class.as_str(), title.as_str(), stacking);
        let id = window_id(addr.as_str());
        return match cache.get(&id) {
            Some(info) => Some(DesktopEvent::WindowOpened { info, source }),
            None => None,
        };
    }
    if same(name, "closewindow") {
        let addr = trimmed(data.as_str());
        let id = window_id(addr.as_str());
        cache.remove(addr.as_str());
        return Some(DesktopEvent::WindowClosed { id, source });
    }
    if same(name, "activewindowv2") {
        let addr = trimmed(data.as_str());
        *focused_address = addr.clone();
        if addr.as_str().is_empty() {
            return None;
        }
        let info = window_info_for_focus(cache, addr.as_str());
        return Some(DesktopEvent::WindowFocused { info, source });
    }
    if same(name, "workspacev2") {
        let (first, rest) = split_field(Some(data));
        let id = trimmed(text_of(first).as_str());
        let ws_name = trimmed(text_of(rest).as_str());
        let info = WorkspaceInfo {
            id: WorkspaceId { native_id: id, de_type: DesktopEnvironment::Hyprland },
            name: ws_name,
            number: 0,
            is_active: true,
            monitor_ids: Vec::new(),
            window_ids: Vec::new(),
        };
        assert(info@.monitor_ids =~= Seq::<IdView>::empty());
        assert(info@.window_ids =~= Seq::<IdView>::empty());
        return Some(DesktopEvent::WorkspaceChanged { info, source });
    }
    if same(name, "fullscreen") {
        let flag = trimmed(data.as_str());
        let on = same(flag.as_str(), "1");
        if focused_address.as_str().is_empty() {
            return None;
        }
        cache.set_fullscreen(focused_address.as_str(), on);
        let id = window_id(focused_address.as_str());
        return Some(
            DesktopEvent::FullscreenChanged { enabled: on, window_id: Some(id), source },
        );
    }
    None
}

/// Opening a window always is an event, and it shows the window as it is known
/// afterwards.
pub proof fn law_open_is_reported(s: SessionView, data: Seq<char>)
    ensures
        on_open(s, data).1 is Some,
{
    let rest1 = later_fields(Some(data));
    let rest2 = later_fields(rest1);
    let address = opened_address(data);
    crate::hyprland::cache::law_announced_window_is_found(
        s.windows,
        address,
        field_number(first_field(rest1)),
        field_text(first_field(rest2)),
        field_text(later_fields(rest2)),
        (s.windows.len() as u32 + 1) as u32,
        id_of_address(address),
    );
}

/// After a window was closed it is not known any more.
pub proof fn law_closed_window_is_forgotten(s: SessionView, data: Seq<char>)
    ensures
        find_window(on_close(s, data).0.windows, id_of_address(trim(data))) is None,
{
    crate::hyprland::cache::law_removed_window_is_gone(
        s.windows,
        id_of_address(trim(data)),
        id_of_address(trim(data)),
    );
}

/// Removing a window that was put at the end gives back the others.
proof fn lemma_removing_the_last(ws: Seq<WindowView>, w: WindowView)
    requires
        find_window(ws, w.id) is None,
    ensures
        without_window(ws.push(w), w.id) == ws,
{
    lemma_window_position(ws, w.id);
    lemma_nothing_to_remove(ws, w.id);
    reveal(Seq::filter);
    assert(ws.push(w).drop_last() =~= ws);
}

/// Removing a window that is not there changes nothing.
proof fn lemma_nothing_to_remove(ws: Seq<WindowView>, id: IdView)
    requires
        forall|i: int| 0 <= i < ws.len() ==> (#[trigger] ws[i]).id != id,
    ensures
        without_window(ws, id) == ws,
    decreases ws.len(),
{
    reveal(Seq::filter);
    if ws.len() > 0 {
        assert forall|i: int| 0 <= i < ws.drop_last().len() implies (
        #[trigger] ws.drop_last()[i]).id != id by {
            assert(ws[i].id != id);
        }
        lemma_nothing_to_remove(ws.drop_last(), id);
        assert(ws[ws.len() - 1].id != id);
        assert(ws.drop_last().push(ws.last()) =~= ws);
    } else {
        assert(without_window(ws, id) =~= ws);
    }
}

/// Closing undoes opening: after a window that was not known was opened and closed
/// again, everything is known as it was before, and the closing was reported.
pub proof fn law_closing_undoes_opening(s: SessionView, opening: Seq<char>, closing: Seq<char>)
    requires
        tells_of(opening, "openwindow"@),
        tells_of(closing, "closewindow"@),
        id_of_address(trim(data_of(closing))) == id_of_address(opened_address(data_of(opening))),
        find_window(s.windows, id_of_address(opened_address(data_of(opening)))) is None,
    ensures
        on_line(on_line(s, opening).0, closing) == (
            s,
            Some(
                EventView::WindowClosed {
                    id: id_of_address(opened_address(data_of(opening))),
                    source: EventSource::Hyprland,
                },
            ),
        ),
{
    reveal_strlit("openwindow");
    reveal_strlit("closewindow");
    assert("openwindow"@[0] != "closewindow"@[0]);
    let id = id_of_address(opened_address(data_of(opening)));
    lemma_window_position(s.windows, id);
    let after = on_line(s, opening).0;
    assert(after.windows =~= s.windows.push(after.windows.last()));
    lemma_removing_the_last(s.windows, after.windows.last());
}

} // verus!
