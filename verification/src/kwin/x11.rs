//! Windows and workspaces of an X11 session, from window manager hints.

use vstd::prelude::*;

use crate::kwin::compositor::KWinCompositor;
use crate::kwin::native::{flagged_states, kde, states_from_flags};
use crate::text::{cat, dec, dec_of, lemma_texts_push, split, split_at_char, texts};
use crate::types::{
    lemma_views_push, views, zero_rect, DesktopEnvironment, IdView, Rect, WindowId, WindowInfo,
    WindowState, WindowType, WindowView, WorkspaceId, WorkspaceInfo, WorkspaceView,
};

verus! {

/// The numbers under which the X server knows the names of the hints.
#[allow(non_snake_case)]
#[derive(Clone, Copy, Debug)]
pub struct EwmhAtoms {
    pub _NET_CLIENT_LIST: u32,
    pub _NET_CLIENT_LIST_STACKING: u32,
    pub _NET_ACTIVE_WINDOW: u32,
    pub _NET_CURRENT_DESKTOP: u32,
    pub _NET_NUMBER_OF_DESKTOPS: u32,
    pub _NET_DESKTOP_NAMES: u32,
    pub _NET_DESKTOP_GEOMETRY: u32,
    pub _NET_DESKTOP_VIEWPORT: u32,
    pub _NET_WORKAREA: u32,
    pub _NET_SUPPORTED: u32,
    pub _NET_SUPPORTING_WM_CHECK: u32,
    pub _NET_CLOSE_WINDOW: u32,
    pub _NET_MOVERESIZE_WINDOW: u32,
    pub _NET_WM_NAME: u32,
    pub _NET_WM_STATE: u32,
    pub _NET_WM_STATE_MAXIMIZED_VERT: u32,
    pub _NET_WM_STATE_MAXIMIZED_HORZ: u32,
    pub _NET_WM_STATE_HIDDEN: u32,
    pub _NET_WM_STATE_FULLSCREEN: u32,
    pub _NET_WM_STATE_ABOVE: u32,
    pub _NET_WM_DESKTOP: u32,
    pub _NET_WM_WINDOW_TYPE: u32,
    pub _NET_WM_WINDOW_TYPE_NORMAL: u32,
    pub _NET_WM_WINDOW_TYPE_DIALOG: u32,
    pub _NET_WM_WINDOW_TYPE_DOCK: u32,
    pub _NET_WM_WINDOW_TYPE_DESKTOP: u32,
    pub _NET_WM_WINDOW_TYPE_MENU: u32,
    pub _NET_WM_WINDOW_TYPE_TOOLTIP: u32,
    pub _NET_WM_WINDOW_TYPE_SPLASH: u32,
    pub _NET_WM_WINDOW_TYPE_UTILITY: u32,
    pub _NET_WM_WINDOW_TYPE_NOTIFICATION: u32,
    pub _NET_WM_PID: u32,
    pub UTF8_STRING: u32,
    pub WM_CLASS: u32,
}

/// The window type that one atom names.
pub open spec fn type_of_atom(a: u32, atoms: EwmhAtoms) -> Option<WindowType> {
    if a == atoms._NET_WM_WINDOW_TYPE_NORMAL {
        Some(WindowType::Normal)
    } else if a == atoms._NET_WM_WINDOW_TYPE_DIALOG {
        Some(WindowType::Dialog)
    } else if a == atoms._NET_WM_WINDOW_TYPE_DOCK {
        Some(WindowType::Dock)
    } else if a == atoms._NET_WM_WINDOW_TYPE_DESKTOP {
        Some(WindowType::Desktop)
    } else if a == atoms._NET_WM_WINDOW_TYPE_MENU {
        Some(WindowType::DropdownMenu)
    } else if a == atoms._NET_WM_WINDOW_TYPE_TOOLTIP {
        Some(WindowType::Tooltip)
    } else if a == atoms._NET_WM_WINDOW_TYPE_SPLASH {
        Some(WindowType::Splash)
    } else if a == atoms._NET_WM_WINDOW_TYPE_UTILITY {
        Some(WindowType::Utility)
    } else if a == atoms._NET_WM_WINDOW_TYPE_NOTIFICATION {
        Some(WindowType::Notification)
    } else {
        None
    }
}

/// The type that the first known atom names.
pub open spec fn first_type(list: Seq<u32>, atoms: EwmhAtoms) -> Option<WindowType>
    decreases list.len(),
{
    if list.len() == 0 {
        None
    } else {
        match type_of_atom(list[0], atoms) {
            Some(t) => Some(t),
            None => first_type(list.skip(1), atoms),
        }
    }
}

/// The type of a window: a window that declares none is a normal one, a window
/// that declares only unknown ones is of an unknown type.
pub open spec fn type_of_atoms(list: Seq<u32>, atoms: EwmhAtoms) -> WindowType {
    match first_type(list, atoms) {
        Some(t) => t,
        None => if list.len() == 0 {
            WindowType::Normal
        } else {
            WindowType::Unknown
        },
    }
}

/// The states that a list of atoms stands for.
pub open spec fn states_of_atoms(list: Seq<u32>, atoms: EwmhAtoms) -> Seq<WindowState> {
    flagged_states(
        list.contains(atoms._NET_WM_STATE_HIDDEN),
        list.contains(atoms._NET_WM_STATE_MAXIMIZED_VERT) || list.contains(
            atoms._NET_WM_STATE_MAXIMIZED_HORZ,
        ),
        list.contains(atoms._NET_WM_STATE_FULLSCREEN),
    )
}

fn holds_atom(v: &[u32], a: u32) -> (r: bool)
    ensures
        r == v@.contains(a),
{
    let mut i: usize = 0;
    while i < v.len()
        invariant
            i <= v@.len(),
            forall|j: int| 0 <= j < i ==> v@[j] != a,
        decreases v@.len() - i,
    {
        if v[i] == a {
            return true;
        }
        i = i + 1;
    }
    false
}

fn atom_type(a: u32, atoms: &EwmhAtoms) -> (r: Option<WindowType>)
    ensures
        r == type_of_atom(a, *atoms),
{
    if a == atoms._NET_WM_WINDOW_TYPE_NORMAL {
        Some(WindowType::Normal)
    } else if a == atoms._NET_WM_WINDOW_TYPE_DIALOG {
        Some(WindowType::Dialog)
    } else if a == atoms._NET_WM_WINDOW_TYPE_DOCK {
        Some(WindowType::Dock)
    } else if a == atoms._NET_WM_WINDOW_TYPE_DESKTOP {
        Some(WindowType::Desktop)
    } else if a == atoms._NET_WM_WINDOW_TYPE_MENU {
        Some(WindowType::DropdownMenu)
    } else if a == atoms._NET_WM_WINDOW_TYPE_TOOLTIP {
        Some(WindowType::Tooltip)
    } else if a == atoms._NET_WM_WINDOW_TYPE_SPLASH {
        Some(WindowType::Splash)
    } else if a == atoms._NET_WM_WINDOW_TYPE_UTILITY {
        Some(WindowType::Utility)
    } else if a == atoms._NET_WM_WINDOW_TYPE_NOTIFICATION {
        Some(WindowType::Notification)
    } else {
        None
    }
}

/// What the X server says of a window.
pub struct X11Window {
    pub window: u32,
    pub title: String,
    pub class: Option<String>,
    pub pid: Option<u32>,
    pub geometry: Rect,
    /// The desktop of the window; the largest number stands for all of them.
    pub desktop: Option<u32>,
    pub states: Vec<u32>,
    /// The declared types, unless they could not be read.
    pub types: Option<Vec<u32>>,
}

/// The desktop of a window; a window on all desktops is on none in particular.
pub open spec fn x11_desktop(d: Option<u32>) -> Option<IdView> {
    match d {
        Some(n) => if n == u32::MAX {
            None
        } else {
            Some(kde(dec(n as nat)))
        },
        None => None,
    }
}

/// The window behind what the X server says of it. Its geometry is that of the
/// content; the outer frame is not computed and stays unknown.
pub open spec fn x11_window_view(w: X11Window, order: u32, atoms: EwmhAtoms) -> WindowView {
    WindowView {
        id: kde(dec(w.window as nat)),
        title: w.title@,
        app_id: match w.class {
            Some(c) => c@,
            None => w.title@,
        },
        pid: match w.pid {
            Some(p) => p,
            None => 0,
        },
        geometry: w.geometry,
        frame_geometry: zero_rect(),
        states: states_of_atoms(w.states@, atoms),
        workspace_id: x11_desktop(w.desktop),
        monitor_id: None,
        stacking_order: order,
        desktop_file: None,
        window_type: match w.types {
            Some(t) => type_of_atoms(t@, atoms),
            None => WindowType::Unknown,
        },
        icon_geometry: None,
        keep_above: w.states@.contains(atoms._NET_WM_STATE_ABOVE),
    }
}

/// The windows that could be read, each with its position in the list as its
/// stacking order.
pub open spec fn x11_window_views(list: Seq<Option<X11Window>>, atoms: EwmhAtoms) -> Seq<WindowView>
    decreases list.len(),
{
    if list.len() == 0 {
        Seq::empty()
    } else {
        let front = x11_window_views(list.drop_last(), atoms);
        match list.last() {
            Some(w) => front.push(x11_window_view(w, (list.len() - 1) as u32, atoms)),
            None => front,
        }
    }
}

/// The first position of `w` in `list`, or the length of `list` if there is none.
pub open spec fn first_position(list: Seq<u32>, w: u32) -> int
    decreases list.len(),
{
    if list.len() == 0 || list[0] == w {
        0
    } else {
        1 + first_position(list.skip(1), w)
    }
}

/// The names that are not empty.
pub open spec fn named(pieces: Seq<Seq<char>>) -> Seq<Seq<char>>
    decreases pieces.len(),
{
    if pieces.len() == 0 {
        Seq::empty()
    } else if pieces.last().len() > 0 {
        named(pieces.drop_last()).push(pieces.last())
    } else {
        named(pieces.drop_last())
    }
}

/// The name of the desktop `i`, counted from zero.
pub open spec fn desktop_name(names: Seq<Seq<char>>, i: int) -> Seq<char> {
    if i < names.len() {
        names[i]
    } else {
        "Desktop "@ + dec((i + 1) as nat)
    }
}

/// The workspace for the desktop `i`. Identifiers count from zero, as windows
/// and the window manager do; numbers count from one.
pub open spec fn x11_workspace_view(i: int, current: u32, names: Seq<Seq<char>>) -> WorkspaceView {
    WorkspaceView {
        id: kde(dec(i as nat)),
        name: desktop_name(names, i),
        number: (i + 1) as u32,
        is_active: i == current,
        monitor_ids: Seq::empty(),
        window_ids: Seq::empty(),
    }
}

impl KWinCompositor {
    /// The states that a list of atoms stands for.
    pub fn x11_states_from_atoms(atoms: &[u32], ewmh: &EwmhAtoms) -> (r: Vec<WindowState>)
        ensures
            r@ == states_of_atoms(atoms@, *ewmh),
    {
        states_from_flags(
            holds_atom(atoms, ewmh._NET_WM_STATE_HIDDEN),
            holds_atom(atoms, ewmh._NET_WM_STATE_MAXIMIZED_VERT) || holds_atom(
                atoms,
                ewmh._NET_WM_STATE_MAXIMIZED_HORZ,
            ),
            holds_atom(atoms, ewmh._NET_WM_STATE_FULLSCREEN),
        )
    }

    /// The type of a window from the atoms that it declares.
    pub fn x11_window_type_from_atoms(list: &[u32], atoms: &EwmhAtoms) -> (r: WindowType)
        ensures
            r == type_of_atoms(list@, *atoms),
    {
        let mut i: usize = 0;
        assert(list@.skip(0) =~= list@);
        while i < list.len()
            invariant
                i <= list@.len(),
                first_type(list@, *atoms) == first_type(list@.skip(i as int), *atoms),
            decreases list@.len() - i,
        {
            if let Some(t) = atom_type(list[i], atoms) {
                return t;
            }
            assert(list@.skip(i as int).skip(1) =~= list@.skip(i as int + 1));
            i = i + 1;
        }
        if list.len() == 0 {
            WindowType::Normal
        } else {
            WindowType::Unknown
        }
    }

    /// The window behind what the X server says of it.
    pub fn x11_build_window_info(w: &X11Window, stacking_order: u32, atoms: &EwmhAtoms) -> (r:
        WindowInfo)
        ensures
            r@ == x11_window_view(*w, stacking_order, *atoms),
    {
        let app_id = match &w.class {
            Some(c) => c.clone(),
            None => w.title.clone(),
        };
        let workspace_id = match w.desktop {
            Some(d) => if d == 0xFFFF_FFFF {
                None
            } else {
                Some(WorkspaceId { native_id: dec_of(d as u64), de_type: DesktopEnvironment::KDE })
            },
            None => None,
        };
        let window_type = match &w.types {
            Some(t) => Self::x11_window_type_from_atoms(t.as_slice(), atoms),
            None => WindowType::Unknown,
        };
        let r = WindowInfo {
            id: WindowId { native_id: dec_of(w.window as u64), de_type: DesktopEnvironment::KDE },
            title: w.title.clone(),
            app_id,
            pid: match w.pid {
                Some(p) => p,
                None => 0,
            },
            geometry: w.geometry,
            frame_geometry: Rect { x: 0, y: 0, width: 0, height: 0 },
            states: Self::x11_states_from_atoms(w.states.as_slice(), atoms),
            workspace_id,
            monitor_id: None,
            stacking_order,
            desktop_file: None,
            window_type,
            icon_geometry: None,
            keep_above: holds_atom(w.states.as_slice(), atoms._NET_WM_STATE_ABOVE),
        };
        assert(r@ =~= x11_window_view(*w, stacking_order, *atoms));
        r
    }

    /// The windows of a list that was read from the bottom of the stack to its
    /// top. A window that went in the meantime is left out.
    pub fn x11_list_windows(list: &Vec<Option<X11Window>>, atoms: &EwmhAtoms) -> (r: Vec<
        WindowInfo,
    >)
        ensures
            views(r@) == x11_window_views(list@, *atoms),
    {
        broadcast use lemma_views_push;

        let mut out: Vec<WindowInfo> = Vec::new();
        let mut i: usize = 0;
        assert(views(out@) =~= x11_window_views(list@.take(0), *atoms));
        while i < list.len()
            invariant
                i <= list.len(),
                views(out@) == x11_window_views(list@.take(i as int), *atoms),
            decreases list.len() - i,
        {
            assert(list@.take(i as int + 1).drop_last() =~= list@.take(i as int));
            let order: u32 = #[verifier::truncate] (i as u32);
            if let Some(w) = &list[i] {
                out.push(Self::x11_build_window_info(w, order, atoms));
            }
            i = i + 1;
        }
        assert(list@.take(i as int) =~= list@);
        out
    }

    /// The list to enumerate windows by: the one in stacking order, or the plain
    /// one where that is empty.
    pub fn x11_stacking_list(stacking: Vec<u32>, plain: Vec<u32>) -> (r: Vec<u32>)
        ensures
            r == (if stacking@.len() == 0 {
                plain
            } else {
                stacking
            }),
    {
        if stacking.len() == 0 {
            plain
        } else {
            stacking
        }
    }

    /// The stacking order of the active window: its position in the list, or
    /// zero where it is not listed.
    pub fn x11_active_order(list: &[u32], w: u32) -> (r: u32)
        ensures
            r == (if list@.contains(w) {
                first_position(list@, w) as u32
            } else {
                0
            }),
    {
        let mut i: usize = 0;
        assert(list@.skip(0) =~= list@);
        while i < list.len()
            invariant
                i <= list@.len(),
                forall|j: int| 0 <= j < i ==> list@[j] != w,
                first_position(list@, w) == i + first_position(list@.skip(i as int), w),
            decreases list@.len() - i,
        {
            if list[i] == w {
                assert(list@.contains(w));
                assert(first_position(list@, w) == i);
                return #[verifier::truncate] (i as u32);
            }
            assert(list@.skip(i as int).skip(1) =~= list@.skip(i as int + 1));
            i = i + 1;
        }
        0
    }

    /// The names in the zero-separated property that holds them.
    pub fn x11_desktop_names(raw: Option<&str>) -> (r: Vec<String>)
        ensures
            texts(r@) == (match raw {
                Some(s) => named(split(s@, '\0')),
                None => Seq::empty(),
            }),
    {
        broadcast use lemma_texts_push;

        let mut out: Vec<String> = Vec::new();
        let s = match raw {
            Some(s) => s,
            None => {
                assert(texts(out@) =~= Seq::<Seq<char>>::empty());
                return out;
            },
        };
        let pieces = split_at_char(s, '\0');
        let ghost all = split(s@, '\0');
        let mut i: usize = 0;
        assert(texts(out@) =~= named(all.take(0)));
        while i < pieces.len()
            invariant
                i <= pieces.len(),
                texts(pieces@) == all,
                texts(out@) == named(all.take(i as int)),
            decreases pieces.len() - i,
        {
            assert(all.take(i as int + 1).drop_last() =~= all.take(i as int));
            assert(all[i as int] == pieces@[i as int]@);
            if !pieces[i].as_str().is_empty() {
                out.push(pieces[i].clone());
            }
            i = i + 1;
        }
        assert(all.take(i as int) =~= all);
        out
    }

    /// The workspaces behind a count, a current desktop and the names that are
    /// known.
    pub fn x11_workspaces(count: u32, current: u32, names: &[String]) -> (r: Vec<WorkspaceInfo>)
        ensures
            r@.len() == count,
            views(r@) == Seq::new(
                count as nat,
                |i: int| x11_workspace_view(i, current, texts(names@)),
            ),
    {
        broadcast use lemma_views_push;

        let mut out: Vec<WorkspaceInfo> = Vec::new();
        let ghost all = Seq::new(
            count as nat,
            |i: int| x11_workspace_view(i, current, texts(names@)),
        );
        let mut i: u32 = 0;
        while i < count
            invariant
                i <= count,
                out@.len() == i,
                all == Seq::new(
                    count as nat,
                    |i: int| x11_workspace_view(i, current, texts(names@)),
                ),
                views(out@) == all.take(i as int),
            decreases count - i,
        {
            let name = if (i as usize) < names.len() {
                names[i as usize].clone()
            } else {
                let n = dec_of(i as u64 + 1);
                cat("Desktop ", n.as_str())
            };
            let w = WorkspaceInfo {
                id: WorkspaceId { native_id: dec_of(i as u64), de_type: DesktopEnvironment::KDE },
                name,
                number: i + 1,
                is_active: i == current,
                monitor_ids: Vec::new(),
                window_ids: Vec::new(),
            };
            assert(w@ =~= x11_workspace_view(i as int, current, texts(names@)));
            let ghost had = views(out@);
            out.push(w);
            assert(views(out@) == had.push(all[i as int]));
            i = i + 1;
            assert(views(out@) =~= all.take(i as int));
        }
        assert(all.take(i as int) =~= all);
        out
    }
}

} // verus!
