//! KWin's own bus interface, for sessions without scripting.
//!
//! A window is described by a map from names to variants. Workspaces come from
//! the virtual desktop manager.

use vstd::prelude::*;

use crate::json::or_empty;
use crate::text::{cat, opt_text, owned, read_u32, read_unsigned, same, texts};
use crate::types::{
    lemma_views_push, opt_view, views, zero_rect, AgentShellError, DesktopEnvironment, ErrorView,
    IdView, Rect, WindowId, WindowInfo, WindowState, WindowType, WindowView, WorkspaceId,
    WorkspaceInfo, WorkspaceView,
};

verus! {

/// Object path of KWin's own interface.
pub const KWIN_PATH: &'static str = "/KWin";

/// Name of KWin's own interface.
pub const KWIN_IFACE: &'static str = "org.kde.KWin";

/// Object path of the virtual desktop manager.
pub const VD_PATH: &'static str = "/VirtualDesktopManager";

/// Interface of the virtual desktop manager.
pub const VD_IFACE: &'static str = "org.kde.KWin.VirtualDesktopManager";

/// A value in a window description, as far as descriptions are read.
#[derive(Debug)]
pub enum Variant {
    Bool(bool),
    Int(i32),
    Text(String),
    /// An array; an item that is no text is `None`.
    Texts(Vec<Option<String>>),
    /// A value of any other type.
    Other,
}

/// A window description: each name occurs once.
pub struct VariantMap {
    pub entries: Vec<(String, Variant)>,
}

/// The first value under a name.
pub open spec fn entry(m: Seq<(String, Variant)>, key: Seq<char>) -> Option<Variant>
    decreases m.len(),
{
    if m.len() == 0 {
        None
    } else if m[0].0@ == key {
        Some(m[0].1)
    } else {
        entry(m.skip(1), key)
    }
}

/// The texts of an array, if all its items are texts.
pub open spec fn all_texts(v: Seq<Option<String>>) -> Option<Seq<Seq<char>>> {
    if forall|i: int| 0 <= i < v.len() ==> (#[trigger] v[i]) is Some {
        Some(Seq::new(v.len(), |i: int| v[i]->0@))
    } else {
        None
    }
}

impl VariantMap {
    pub open spec fn at(self, key: Seq<char>) -> Option<Variant> {
        entry(self.entries@, key)
    }

    /// The text under a name.
    pub open spec fn text(self, key: Seq<char>) -> Option<Seq<char>> {
        match self.at(key) {
            Some(Variant::Text(s)) => Some(s@),
            _ => None,
        }
    }

    /// The integer under a name, or zero.
    pub open spec fn number(self, key: Seq<char>) -> i32 {
        match self.at(key) {
            Some(Variant::Int(n)) => n,
            _ => 0,
        }
    }

    /// The flag under a name, or false.
    pub open spec fn flag(self, key: Seq<char>) -> bool {
        match self.at(key) {
            Some(Variant::Bool(b)) => b,
            _ => false,
        }
    }

    /// The first text of the array under a name.
    pub open spec fn first_text(self, key: Seq<char>) -> Option<Seq<char>> {
        match self.at(key) {
            Some(Variant::Texts(v)) => match all_texts(v@) {
                Some(t) => if t.len() > 0 {
                    Some(t[0])
                } else {
                    None
                },
                None => None,
            },
            _ => None,
        }
    }

    /// The value under a name.
    pub fn get(&self, key: &str) -> (r: Option<&Variant>)
        ensures
            match r {
                Some(v) => self.at(key@) == Some(*v),
                None => self.at(key@) is None,
            },
    {
        let mut i: usize = 0;
        assert(self.entries@.skip(0) =~= self.entries@);
        while i < self.entries.len()
            invariant
                i <= self.entries.len(),
                self.at(key@) == entry(self.entries@.skip(i as int), key@),
            decreases self.entries.len() - i,
        {
            if same(self.entries[i].0.as_str(), key) {
                return Some(&self.entries[i].1);
            }
            assert(self.entries@.skip(i as int).skip(1) =~= self.entries@.skip(i as int + 1));
            i = i + 1;
        }
        None
    }

    /// The text under a name.
    pub fn get_text(&self, key: &str) -> (r: Option<String>)
        ensures
            opt_text(r) == self.text(key@),
    {
        match self.get(key) {
            Some(Variant::Text(s)) => Some(s.clone()),
            _ => None,
        }
    }

    /// The integer under a name, or zero.
    pub fn get_number(&self, key: &str) -> (r: i32)
        ensures
            r == self.number(key@),
    {
        match self.get(key) {
            Some(Variant::Int(n)) => *n,
            _ => 0,
        }
    }

    /// The flag under a name, or false.
    pub fn get_flag(&self, key: &str) -> (r: bool)
        ensures
            r == self.flag(key@),
    {
        match self.get(key) {
            Some(Variant::Bool(b)) => *b,
            _ => false,
        }
    }

    /// The first text of the array under a name.
    pub fn get_first_text(&self, key: &str) -> (r: Option<String>)
        ensures
            opt_text(r) == self.first_text(key@),
    {
        match self.get(key) {
            Some(Variant::Texts(v)) => {
                let mut i: usize = 0;
                while i < v.len()
                    invariant
                        i <= v.len(),
                        self.at(key@) == Some(Variant::Texts(*v)),
                        forall|j: int| 0 <= j < i ==> (#[trigger] v@[j]) is Some,
                    decreases v.len() - i,
                {
                    if v[i].is_none() {
                        assert(!(v@[i as int] is Some));
                        return None;
                    }
                    i = i + 1;
                }
                if v.len() == 0 {
                    return None;
                }
                assert(v@[0] is Some);
                match &v[0] {
                    Some(s) => Some(s.clone()),
                    None => None,
                }
            },
            _ => None,
        }
    }
}

/// The window type behind KWin's number for it.
pub open spec fn type_of_number(t: i32) -> WindowType {
    if t == 0 {
        WindowType::Normal
    } else if t == 1 {
        WindowType::Desktop
    } else if t == 2 {
        WindowType::Dock
    } else if t == 4 || t == 10 {
        WindowType::DropdownMenu
    } else if t == 5 {
        WindowType::Dialog
    } else if t == 8 {
        WindowType::Utility
    } else if t == 9 {
        WindowType::Splash
    } else if t == 12 {
        WindowType::Tooltip
    } else if t == 13 {
        WindowType::Notification
    } else {
        WindowType::Unknown
    }
}

/// The window type behind KWin's number for it.
pub fn parse_window_type_int(t: i32) -> (r: WindowType)
    ensures
        r == type_of_number(t),
{
    match t {
        0 => WindowType::Normal,
        1 => WindowType::Desktop,
        2 => WindowType::Dock,
        4 => WindowType::DropdownMenu,
        5 => WindowType::Dialog,
        8 => WindowType::Utility,
        9 => WindowType::Splash,
        10 => WindowType::DropdownMenu,
        12 => WindowType::Tooltip,
        13 => WindowType::Notification,
        _ => WindowType::Unknown,
    }
}

/// The states that three flags stand for; none of them is the normal state.
pub open spec fn flagged_states(minimized: bool, maximized: bool, fullscreen: bool) -> Seq<
    WindowState,
> {
    let a = if minimized {
        seq![WindowState::Minimized]
    } else {
        Seq::empty()
    };
    let b = if maximized {
        a.push(WindowState::Maximized)
    } else {
        a
    };
    let c = if fullscreen {
        b.push(WindowState::FullScreen)
    } else {
        b
    };
    if c.len() == 0 {
        seq![WindowState::Normal]
    } else {
        c
    }
}

/// The states that three flags stand for.
pub fn states_from_flags(minimized: bool, maximized: bool, fullscreen: bool) -> (r: Vec<
    WindowState,
>)
    ensures
        r@ == flagged_states(minimized, maximized, fullscreen),
{
    let mut states: Vec<WindowState> = Vec::new();
    if minimized {
        states.push(WindowState::Minimized);
    }
    if maximized {
        states.push(WindowState::Maximized);
    }
    if fullscreen {
        states.push(WindowState::FullScreen);
    }
    if states.len() == 0 {
        states.push(WindowState::Normal);
    }
    assert(states@ =~= flagged_states(minimized, maximized, fullscreen));
    states
}

/// A desktop identity of KWin.
pub open spec fn kde(id: Seq<char>) -> IdView {
    IdView { native_id: id, de_type: DesktopEnvironment::KDE }
}

/// `s`, unless it is empty.
pub open spec fn not_empty(s: Option<Seq<char>>) -> Option<Seq<char>> {
    match s {
        Some(t) => if t.len() > 0 {
            Some(t)
        } else {
            None
        },
        None => None,
    }
}

/// The window that a description stands for. Without a uuid there is none: the
/// window went while the list was read. The outer frame is not described and
/// stays unknown, as does the process.
pub open spec fn described_window(map: VariantMap, stacking_order: u32) -> Option<WindowView> {
    match map.text("uuid"@) {
        None => None,
        Some(uuid) => Some(
            WindowView {
                id: kde(uuid),
                title: or_empty(map.text("caption"@)),
                app_id: or_empty(map.text("resourceClass"@)),
                pid: 0,
                geometry: Rect {
                    x: map.number("x"@),
                    y: map.number("y"@),
                    width: map.number("width"@),
                    height: map.number("height"@),
                },
                frame_geometry: zero_rect(),
                states: flagged_states(
                    map.flag("minimized"@),
                    map.flag("maximizeHorizontal"@) || map.flag("maximizeVertical"@),
                    map.flag("fullscreen"@),
                ),
                workspace_id: match map.first_text("desktops"@) {
                    Some(d) => Some(kde(d)),
                    None => None,
                },
                monitor_id: None,
                stacking_order,
                desktop_file: not_empty(map.text("desktopFile"@)),
                window_type: match map.at("type"@) {
                    Some(Variant::Int(t)) => type_of_number(t),
                    _ => WindowType::Unknown,
                },
                icon_geometry: None,
                keep_above: map.flag("keepAbove"@),
            },
        ),
    }
}

/// The window that a description stands for.
pub fn parse_window(map: &VariantMap, stacking_order: u32) -> (r: Option<WindowInfo>)
    ensures
        opt_view(r) == described_window(*map, stacking_order),
{
    let uuid = match map.get_text("uuid") {
        Some(u) => u,
        None => return None,
    };
    let title = match map.get_text("caption") {
        Some(t) => t,
        None => String::new(),
    };
    let app_id = match map.get_text("resourceClass") {
        Some(t) => t,
        None => String::new(),
    };
    let states = states_from_flags(
        map.get_flag("minimized"),
        map.get_flag("maximizeHorizontal") || map.get_flag("maximizeVertical"),
        map.get_flag("fullscreen"),
    );
    let workspace_id = match map.get_first_text("desktops") {
        Some(d) => Some(WorkspaceId { native_id: d, de_type: DesktopEnvironment::KDE }),
        None => None,
    };
    let desktop_file = match map.get_text("desktopFile") {
        Some(f) => if f.as_str().is_empty() {
            None
        } else {
            Some(f)
        },
        None => None,
    };
    let window_type = match map.get("type") {
        Some(Variant::Int(t)) => parse_window_type_int(*t),
        _ => WindowType::Unknown,
    };
    Some(
        WindowInfo {
            id: WindowId { native_id: uuid, de_type: DesktopEnvironment::KDE },
            title,
            app_id,
            pid: 0,
            geometry: Rect {
                x: map.get_number("x"),
                y: map.get_number("y"),
                width: map.get_number("width"),
                height: map.get_number("height"),
            },
            frame_geometry: Rect { x: 0, y: 0, width: 0, height: 0 },
            states,
            workspace_id,
            monitor_id: None,
            stacking_order,
            desktop_file,
            window_type,
            icon_geometry: None,
            keep_above: map.get_flag("keepAbove"),
        },
    )
}

/// The windows behind the first `n` descriptions, each with its position as its
/// stacking order.
pub open spec fn described_windows(maps: Seq<VariantMap>) -> Seq<WindowView>
    decreases maps.len(),
{
    if maps.len() == 0 {
        Seq::empty()
    } else {
        let front = described_windows(maps.drop_last());
        match described_window(maps.last(), (maps.len() - 1) as u32) {
            Some(w) => front.push(w),
            None => front,
        }
    }
}

/// The windows behind descriptions that were read from the bottom of the stack
/// to its top.
pub fn parse_windows(maps: &Vec<VariantMap>) -> (r: Vec<WindowInfo>)
    ensures
        views(r@) == described_windows(maps@),
{
    broadcast use lemma_views_push;

    let mut out: Vec<WindowInfo> = Vec::new();
    let mut i: usize = 0;
    assert(views(out@) =~= described_windows(maps@.take(0)));
    while i < maps.len()
        invariant
            i <= maps.len(),
            views(out@) == described_windows(maps@.take(i as int)),
        decreases maps.len() - i,
    {
        assert(maps@.take(i as int + 1).drop_last() =~= maps@.take(i as int));
        let order: u32 = #[verifier::truncate] (i as u32);
        assert(order == (maps@.take(i as int + 1).len() - 1) as u32);
        if let Some(w) = parse_window(&maps[i], order) {
            out.push(w);
        }
        i = i + 1;
    }
    assert(maps@.take(i as int) =~= maps@);
    out
}

/// A virtual desktop: its position, counted from zero, its identifier and its
/// name.
pub struct VirtualDesktop {
    pub position: u32,
    pub id: String,
    pub name: String,
}

/// The number of a virtual desktop, counted from one.
pub open spec fn desktop_number(d: VirtualDesktop) -> u32 {
    if d.position == u32::MAX {
        u32::MAX
    } else {
        (d.position + 1) as u32
    }
}

/// Whether a virtual desktop has an identifier.
pub open spec fn desktop_exists(desktops: Seq<VirtualDesktop>, id: Seq<char>) -> bool {
    exists|i: int| 0 <= i < desktops.len() && (#[trigger] desktops[i]).id@ == id
}

/// The identifier of the first virtual desktop with a number.
pub open spec fn desktop_numbered(desktops: Seq<VirtualDesktop>, n: nat) -> Option<Seq<char>>
    decreases desktops.len(),
{
    if desktops.len() == 0 {
        None
    } else if desktop_number(desktops[0]) == n {
        Some(desktops[0].id@)
    } else {
        desktop_numbered(desktops.skip(1), n)
    }
}

/// The virtual desktop that a workspace identifier denotes: its own identifier,
/// or its number. Anything else is refused.
pub open spec fn desktop_target(desktops: Seq<VirtualDesktop>, id: Seq<char>) -> Result<
    Seq<char>,
    ErrorView,
> {
    if desktop_exists(desktops, id) {
        Ok(id)
    } else {
        match read_unsigned(id, u32::MAX as nat) {
            Some(n) => match desktop_numbered(desktops, n) {
                Some(target) => Ok(target),
                None => Err(unknown_desktop(id)),
            },
            None => Err(unknown_desktop(id)),
        }
    }
}

/// Reported when no virtual desktop answers to an identifier.
pub open spec fn unknown_desktop(id: Seq<char>) -> ErrorView {
    ErrorView::Other("unknown workspace id: "@ + id)
}

/// Every workspace that is listed can be activated by the identifier that the
/// list shows.
pub proof fn law_listed_workspace_is_a_target(desktops: Seq<VirtualDesktop>, i: int)
    requires
        0 <= i < desktops.len(),
    ensures
        desktop_target(desktops, desktops[i].id@) == Ok::<Seq<char>, ErrorView>(
            desktops[i].id@,
        ),
{
}

/// A target is always the identifier of a virtual desktop that exists.
pub proof fn law_target_exists(desktops: Seq<VirtualDesktop>, id: Seq<char>)
    ensures
        desktop_target(desktops, id) matches Ok(target) ==> desktop_exists(desktops, target),
{
    if let Some(n) = read_unsigned(id, u32::MAX as nat) {
        lemma_numbered_exists(desktops, n);
    }
}

proof fn lemma_numbered_exists(desktops: Seq<VirtualDesktop>, n: nat)
    ensures
        desktop_numbered(desktops, n) matches Some(target) ==> desktop_exists(desktops, target),
    decreases desktops.len(),
{
    if desktops.len() > 0 {
        assert(desktops[0].id@ == desktops[0].id@);
        if desktop_number(desktops[0]) != n {
            let rest = desktops.skip(1);
            lemma_numbered_exists(rest, n);
            if let Some(target) = desktop_numbered(rest, n) {
                let i = choose|i: int| 0 <= i < rest.len() && (#[trigger] rest[i]).id@ == target;
                assert(desktops[i + 1].id@ == target);
            }
        }
    }
}

/// The workspace behind a virtual desktop. Numbers count from one.
pub open spec fn desktop_workspace(d: VirtualDesktop, current: Seq<char>) -> WorkspaceView {
    WorkspaceView {
        id: kde(d.id@),
        name: d.name@,
        number: desktop_number(d),
        is_active: current == d.id@,
        monitor_ids: Seq::empty(),
        window_ids: Seq::empty(),
    }
}

fn number_of(d: &VirtualDesktop) -> (r: u32)
    ensures
        r == desktop_number(*d),
{
    if d.position == 0xFFFF_FFFF {
        0xFFFF_FFFF
    } else {
        d.position + 1
    }
}

/// The windows and desktops that KWin describes over D-Bus.
#[derive(Debug)]
pub struct KWinNative {}

impl KWinNative {
    /// The workspaces behind the virtual desktops.
    pub fn workspaces(desktops: &Vec<VirtualDesktop>, current: &str) -> (r: Vec<WorkspaceInfo>)
        ensures
            views(r@) == desktops@.map_values(|d: VirtualDesktop| desktop_workspace(d, current@)),
    {
        broadcast use lemma_views_push;

        let mut out: Vec<WorkspaceInfo> = Vec::new();
        let ghost all = desktops@.map_values(|d: VirtualDesktop| desktop_workspace(d, current@));
        let mut i: usize = 0;
        while i < desktops.len()
            invariant
                i <= desktops.len(),
                all == desktops@.map_values(|d: VirtualDesktop| desktop_workspace(d, current@)),
                views(out@) == all.take(i as int),
            decreases desktops.len() - i,
        {
            let d = &desktops[i];
            let w = WorkspaceInfo {
                id: WorkspaceId { native_id: d.id.clone(), de_type: DesktopEnvironment::KDE },
                name: d.name.clone(),
                number: number_of(d),
                is_active: same(current, d.id.as_str()),
                monitor_ids: Vec::new(),
                window_ids: Vec::new(),
            };
            assert(w@ =~= desktop_workspace(*d, current@));
            let ghost had = views(out@);
            out.push(w);
            assert(views(out@) == had.push(all[i as int]));
            i = i + 1;
            assert(views(out@) =~= all.take(i as int));
        }
        assert(all.take(i as int) =~= all);
        out
    }

    /// The identifier of the virtual desktop to switch to. Workspaces that a
    /// script listed may be known by number.
    pub fn target(desktops: &Vec<VirtualDesktop>, id: &str) -> (r: Result<String, AgentShellError>)
        ensures
            match r {
                Ok(t) => desktop_target(desktops@, id@) == Ok::<Seq<char>, ErrorView>(t@),
                Err(e) => desktop_target(desktops@, id@) == Err::<Seq<char>, ErrorView>(e@),
            },
    {
        let mut i: usize = 0;
        while i < desktops.len()
            invariant
                i <= desktops.len(),
                forall|j: int| 0 <= j < i ==> (#[trigger] desktops@[j]).id@ != id@,
            decreases desktops.len() - i,
        {
            if same(desktops[i].id.as_str(), id) {
                assert(desktop_exists(desktops@, id@));
                return Ok(owned(id));
            }
            i = i + 1;
        }
        assert(!desktop_exists(desktops@, id@));
        if let Some(n) = read_u32(id) {
            let mut k: usize = 0;
            assert(desktops@.skip(0) =~= desktops@);
            while k < desktops.len()
                invariant
                    k <= desktops.len(),
                    desktop_numbered(desktops@, n as nat) == desktop_numbered(
                        desktops@.skip(k as int),
                        n as nat,
                    ),
                    read_unsigned(id@, u32::MAX as nat) == Some(n as nat),
                    !desktop_exists(desktops@, id@),
                decreases desktops.len() - k,
            {
                if number_of(&desktops[k]) == n {
                    return Ok(desktops[k].id.clone());
                }
                assert(desktops@.skip(k as int).skip(1) =~= desktops@.skip(k as int + 1));
                k = k + 1;
            }
        }
        Err(AgentShellError::Other(cat("unknown workspace id: ", id)))
    }
}

} // verus!
