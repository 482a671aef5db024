//! What holds of KWin's windows, workspaces, events and channels, stated on what KWin
//! and the X server report and on the fields of what becomes of it.

use vstd::prelude::*;

use crate::json::{is_int, is_text, printed, Json};
use crate::kwin::compositor::{
    bridge_line, code_of_result, event_line, input_line, plan_for, probe_of_code, protocol_details,
    protocol_line, scripted_monitor, scripted_window, scripted_windows, scripted_workspace,
    type_of_name, version_line, x11_window, x11_workspace, Operation, Plan, RegistrationOutcome, ScriptingProbe,
};
use crate::kwin::dbus_bridge::{
    answer, approximate_push, distinct_requests, incoming, probe_outcome, result_text, run_next,
    slot_of, ActionView, Incoming, PhaseView, ProbeReply, RunEvent,
};
use crate::kwin::error::KWinErrorView;
use crate::kwin::event_ewmh::{
    active_events, approximate, client_events, law_difference_members, minus,
};
use crate::kwin::event_native::{after_unmapped, approximate_native, unmapped_event};
use crate::kwin::event_source::{pushed, RawView};
use crate::kwin::native::{
    described_window, described_windows, desktop_numbered, desktop_target, desktop_workspace,
    flagged_states, type_of_number, Variant, VariantMap, VirtualDesktop,
};
use crate::kwin::scripts::argument;
use crate::kwin::version::{
    assumed_version, first_version, version_in_line, version_label, KWinMajor,
};
use crate::kwin::wayland::KWinProtocols;
use crate::kwin::x11::{
    first_position, named, type_of_atoms, x11_window_view, x11_window_views,
    x11_workspace_view, EwmhAtoms, X11Window,
};
use crate::text::{
    begins, contains, dec, dec_int, is_digit, is_white, join, law_first_piece_ends_at_separator,
    law_number_of_dec, law_read_unsigned_of_dec, law_text_without_white_space_is_one_word,
    lemma_dec_is_number, read_unsigned, strip_prefix, trim, words,
};
use crate::types::{
    DesktopEnvironment, ErrorView, EventSource, EventView, IdView, Rect, WindowState, WindowType,
    WindowView,
};

verus! {

/// An identity of KWin.
pub open spec fn of_kde(id: Seq<char>) -> IdView {
    IdView { native_id: id, de_type: DesktopEnvironment::KDE }
}

// ---------------------------------------------------------------------------
// Windows
// ---------------------------------------------------------------------------
/// Each flag stands for its own state, and a window without any is in the normal one.
pub proof fn law_flags_are_states(minimized: bool, maximized: bool, fullscreen: bool)
    ensures
        ({
            let s = flagged_states(minimized, maximized, fullscreen);
            &&& s.contains(WindowState::Minimized) <==> minimized
            &&& s.contains(WindowState::Maximized) <==> maximized
            &&& s.contains(WindowState::FullScreen) <==> fullscreen
            &&& s.contains(WindowState::Normal) <==> !minimized && !maximized && !fullscreen
            &&& !s.contains(WindowState::Hidden)
        }),
{
    let s = flagged_states(minimized, maximized, fullscreen);
    let a: int = if minimized {
        1
    } else {
        0
    };
    let b: int = if maximized {
        1
    } else {
        0
    };
    assert(minimized ==> s[0] == WindowState::Minimized);
    assert(maximized ==> s[a] == WindowState::Maximized);
    assert(fullscreen ==> s[a + b] == WindowState::FullScreen);
    assert(!minimized && !maximized && !fullscreen ==> s[0] == WindowState::Normal);
}

/// A window that a script reports has the identifier, the texts, the process, the
/// states, the desktop and the rectangles of its report.
pub proof fn law_scripted_window_has_the_members(
    v: Json,
    order: u32,
    id: Seq<char>,
    title: Seq<char>,
    app: Seq<char>,
    pid: u32,
)
    requires
        is_text(v.at("id"@), id),
        is_text(v.at("title"@), title),
        is_text(v.at("appId"@), app),
        is_int(v.at("pid"@), pid as int),
    ensures
        scripted_window(v, order) matches Some(w) && {
            &&& w.id == of_kde(id)
            &&& w.title == title
            &&& w.app_id == app
            &&& w.pid == pid
            &&& w.stacking_order == order
            &&& w.keep_above <==> v.at("keepAbove"@) == Some(Json::Bool(true))
            &&& w.states.contains(WindowState::Minimized) <==> v.at("minimized"@) == Some(
                Json::Bool(true),
            )
            &&& w.states.contains(WindowState::Maximized) <==> v.at("maximized"@) == Some(
                Json::Bool(true),
            )
            &&& w.states.contains(WindowState::FullScreen) <==> v.at("fullscreen"@) == Some(
                Json::Bool(true),
            )
            &&& forall|n: int| #[trigger]
                is_int(v.at("desktop"@), n) && n <= i64::MAX ==> w.workspace_id == (if n >= 0 {
                    Some(of_kde(dec(n as nat)))
                } else {
                    None
                })
            &&& forall|t: Seq<char>| #[trigger]
                is_text(v.at("desktopFile"@), t) && t.len() > 0 ==> w.desktop_file == Some(t)
        },
{
    law_flags_are_states(
        v.at("minimized"@) == Some(Json::Bool(true)),
        v.at("maximized"@) == Some(Json::Bool(true)),
        v.at("fullscreen"@) == Some(Json::Bool(true)),
    );
}

/// A window that a script reports lies where the report says; without an identifier
/// it is no window.
pub proof fn law_scripted_window_lies_where_reported(
    v: Json,
    order: u32,
    w: WindowView,
    j: Json,
    g: Rect,
)
    requires
        is_int(j.at("x"@), g.x as int),
        is_int(j.at("y"@), g.y as int),
        is_int(j.at("width"@), g.width as int),
        is_int(j.at("height"@), g.height as int),
    ensures
        scripted_window(v, order) == Some(w) && v.at("geometry"@) == Some(j) ==> w.geometry == g,
        scripted_window(v, order) == Some(w) && v.at("frameGeometry"@) == Some(j)
            ==> w.frame_geometry == g,
        v.at("id"@) is None ==> scripted_window(v, order) is None,
{
}

/// The names of window types.
pub proof fn law_type_names()
    ensures
        type_of_name(Some("normal"@)) == WindowType::Normal,
        type_of_name(Some("dialog"@)) == WindowType::Dialog,
        type_of_name(Some("dock"@)) == WindowType::Dock,
        type_of_name(Some("desktop"@)) == WindowType::Desktop,
        type_of_name(Some("menu"@)) == WindowType::DropdownMenu,
        type_of_name(Some("dropdown_menu"@)) == WindowType::DropdownMenu,
        type_of_name(Some("tooltip"@)) == WindowType::Tooltip,
        type_of_name(Some("notification"@)) == WindowType::Notification,
        type_of_name(Some("splash"@)) == WindowType::Splash,
        type_of_name(Some("utility"@)) == WindowType::Utility,
        type_of_name(None) == WindowType::Unknown,
{
    reveal_strlit("normal");
    reveal_strlit("dialog");
    reveal_strlit("dock");
    reveal_strlit("desktop");
    reveal_strlit("menu");
    reveal_strlit("dropdown_menu");
    reveal_strlit("tooltip");
    reveal_strlit("notification");
    reveal_strlit("splash");
    reveal_strlit("utility");
    assert("normal"@.len() == 6 && "dialog"@.len() == 6 && "splash"@.len() == 6);
    assert("dock"@.len() == 4 && "menu"@.len() == 4);
    assert("desktop"@.len() == 7 && "tooltip"@.len() == 7 && "utility"@.len() == 7);
    assert("dropdown_menu"@.len() == 13 && "notification"@.len() == 12);
    assert("normal"@[0] != "dialog"@[0]);
    assert("normal"@[0] != "splash"@[0]);
    assert("dialog"@[0] != "splash"@[0]);
    assert("dock"@[0] != "menu"@[0]);
    assert("desktop"@[0] != "tooltip"@[0]);
    assert("desktop"@[0] != "utility"@[0]);
    assert("tooltip"@[0] != "utility"@[0]);
}

/// Windows that a script reports are listed in the order of the reply, and their
/// places tell how they are stacked.
pub proof fn law_scripted_windows_are_listed_in_order(items: Seq<Json>, i: int)
    requires
        0 <= i < items.len(),
        forall|k: int| 0 <= k < items.len() ==> scripted_window(#[trigger] items[k], 0) is Some,
    ensures
        scripted_windows(items).len() == items.len(),
        Some(scripted_windows(items)[i]) == scripted_window(items[i], i as u32),
    decreases items.len(),
{
    let front = items.drop_last();
    assert forall|k: int| 0 <= k < front.len() implies scripted_window(
        #[trigger] front[k],
        0,
    ) is Some by {
        assert(front[k] == items[k]);
    }
    assert(scripted_window(items[items.len() - 1], 0) is Some);
    if i < front.len() {
        law_scripted_windows_are_listed_in_order(front, i);
    } else if front.len() > 0 {
        law_scripted_windows_are_listed_in_order(front, 0);
    } else {
        assert(scripted_windows(front).len() == 0);
    }
}

/// A workspace that a script reports has the members of its report, and is active if
/// and only if the report says so.
pub proof fn law_scripted_workspace_has_the_members(
    d: Json,
    id: Seq<char>,
    name: Seq<char>,
    number: u32,
)
    requires
        is_text(d.at("id"@), id),
        is_text(d.at("name"@), name),
        is_int(d.at("number"@), number as int),
    ensures
        ({
            let w = scripted_workspace(d);
            &&& w.id == of_kde(id)
            &&& w.name == name
            &&& w.number == number
            &&& w.is_active <==> d.at("isActive"@) == Some(Json::Bool(true))
        }),
{
}

/// A monitor that a script reports has the members of its report, and is the primary
/// one if and only if the report says so.
pub proof fn law_scripted_monitor_has_the_members(
    m: Json,
    id: Seq<char>,
    name: Seq<char>,
    j: Json,
    g: Rect,
)
    requires
        is_text(m.at("id"@), id),
        is_text(m.at("name"@), name),
        m.at("geometry"@) == Some(j),
        is_int(j.at("x"@), g.x as int),
        is_int(j.at("y"@), g.y as int),
        is_int(j.at("width"@), g.width as int),
        is_int(j.at("height"@), g.height as int),
    ensures
        ({
            let r = scripted_monitor(m);
            &&& r.id == of_kde(id)
            &&& r.name == name
            &&& r.geometry == g
            &&& r.is_primary <==> m.at("isPrimary"@) == Some(Json::Bool(true))
            &&& forall|n: int| #[trigger]
                is_int(m.at("scale"@), n) ==> r.scale == Some(dec_int(n))
        }),
{
}

/// A window that KWin describes has the uuid, the caption, the class, the rectangle,
/// the flags and the first desktop of its description. Either direction of maximising
/// counts.
pub proof fn law_described_window_has_the_entries(
    map: VariantMap,
    order: u32,
    uuid: String,
    caption: String,
    class: String,
    g: Rect,
)
    requires
        map.at("uuid"@) == Some(Variant::Text(uuid)),
        map.at("caption"@) == Some(Variant::Text(caption)),
        map.at("resourceClass"@) == Some(Variant::Text(class)),
        map.at("x"@) == Some(Variant::Int(g.x)),
        map.at("y"@) == Some(Variant::Int(g.y)),
        map.at("width"@) == Some(Variant::Int(g.width)),
        map.at("height"@) == Some(Variant::Int(g.height)),
    ensures
        described_window(map, order) matches Some(w) && {
            &&& w.id == of_kde(uuid@)
            &&& w.title == caption@
            &&& w.app_id == class@
            &&& w.geometry == g
            &&& w.stacking_order == order
            &&& w.keep_above <==> map.at("keepAbove"@) == Some(Variant::Bool(true))
            &&& w.states.contains(WindowState::Minimized) <==> map.at("minimized"@) == Some(
                Variant::Bool(true),
            )
            &&& w.states.contains(WindowState::Maximized) <==> map.at("maximizeHorizontal"@) == Some(
                Variant::Bool(true),
            ) || map.at("maximizeVertical"@) == Some(Variant::Bool(true))
            &&& w.states.contains(WindowState::FullScreen) <==> map.at("fullscreen"@) == Some(
                Variant::Bool(true),
            )
        },
{
    law_flags_are_states(
        map.flag("minimized"@),
        map.flag("maximizeHorizontal"@) || map.flag("maximizeVertical"@),
        map.flag("fullscreen"@),
    );
}

/// A description without a uuid is no window. A described window is on the first of
/// its desktops and of the type with its number.
pub proof fn law_described_window_desktop_and_type(
    map: VariantMap,
    order: u32,
    w: WindowView,
    list: Vec<Option<String>>,
    n: i32,
)
    ensures
        map.at("uuid"@) is None ==> described_window(map, order) is None,
        described_window(map, order) == Some(w) && map.at("desktops"@) == Some(
            Variant::Texts(list),
        ) && list@.len() > 0 && (forall|k: int| 0 <= k < list@.len() ==> (#[trigger] list@[k]) is Some)
            ==> w.workspace_id == Some(of_kde(list@[0]->0@)),
        described_window(map, order) == Some(w) && map.at("type"@) == Some(Variant::Int(n))
            ==> w.window_type == type_of_number(n),
        type_of_number(0) == WindowType::Normal,
        type_of_number(1) == WindowType::Desktop,
        type_of_number(2) == WindowType::Dock,
        type_of_number(4) == WindowType::DropdownMenu,
        type_of_number(5) == WindowType::Dialog,
        type_of_number(8) == WindowType::Utility,
        type_of_number(9) == WindowType::Splash,
        type_of_number(10) == WindowType::DropdownMenu,
        type_of_number(12) == WindowType::Tooltip,
        type_of_number(13) == WindowType::Notification,
        n < 0 || n > 13 ==> type_of_number(n) == WindowType::Unknown,
{
}

/// Described windows are listed in the order of the stack, and their places tell it.
pub proof fn law_described_windows_are_listed_in_order(maps: Seq<VariantMap>, i: int)
    requires
        0 <= i < maps.len(),
        forall|k: int| 0 <= k < maps.len() ==> described_window(#[trigger] maps[k], 0) is Some,
    ensures
        described_windows(maps).len() == maps.len(),
        Some(described_windows(maps)[i]) == described_window(maps[i], i as u32),
    decreases maps.len(),
{
    let front = maps.drop_last();
    assert forall|k: int| 0 <= k < front.len() implies described_window(
        #[trigger] front[k],
        0,
    ) is Some by {
        assert(front[k] == maps[k]);
    }
    assert(described_window(maps[maps.len() - 1], 0) is Some);
    if i < front.len() {
        law_described_windows_are_listed_in_order(front, i);
    } else if front.len() > 0 {
        law_described_windows_are_listed_in_order(front, 0);
    } else {
        assert(described_windows(front).len() == 0);
    }
}

// ---------------------------------------------------------------------------
// Virtual desktops
// ---------------------------------------------------------------------------
/// A virtual desktop is a workspace with its identifier and its name, numbered from
/// one, and is active if and only if it is the current one.
pub proof fn law_desktop_is_a_workspace(d: VirtualDesktop, current: Seq<char>)
    ensures
        ({
            let w = desktop_workspace(d, current);
            &&& w.id == of_kde(d.id@)
            &&& w.name == d.name@
            &&& d.position < u32::MAX ==> w.number == d.position + 1
            &&& w.is_active <==> d.id@ == current
        }),
{
}

/// A number that is no identifier of a desktop denotes the first desktop with that
/// number, counted from one.
pub proof fn law_number_denotes_its_desktop(desktops: Seq<VirtualDesktop>, i: int)
    requires
        0 <= i < desktops.len(),
        desktops[i].position + 1 < u32::MAX,
        forall|k: int| 0 <= k < i ==> (#[trigger] desktops[k]).position != desktops[i].position,
        forall|k: int|
            0 <= k < desktops.len() ==> (#[trigger] desktops[k]).id@ != dec(
                (desktops[i].position + 1) as nat,
            ),
    ensures
        desktop_target(desktops, dec((desktops[i].position + 1) as nat)) == Ok::<
            Seq<char>,
            ErrorView,
        >(desktops[i].id@),
{
    let n = (desktops[i].position + 1) as nat;
    law_read_unsigned_of_dec(n, u32::MAX as nat);
    lemma_numbered(desktops, i);
}

proof fn lemma_numbered(desktops: Seq<VirtualDesktop>, i: int)
    requires
        0 <= i < desktops.len(),
        desktops[i].position + 1 < u32::MAX,
        forall|k: int| 0 <= k < i ==> (#[trigger] desktops[k]).position != desktops[i].position,
    ensures
        desktop_numbered(desktops, (desktops[i].position + 1) as nat) == Some(desktops[i].id@),
    decreases i,
{
    if i > 0 {
        assert(desktops[0].position != desktops[i].position);
        assert forall|k: int| 0 <= k < i - 1 implies (#[trigger] desktops.skip(1)[k]).position
            != desktops.skip(1)[i - 1].position by {
            assert(desktops.skip(1)[k] == desktops[k + 1]);
        }
        lemma_numbered(desktops.skip(1), i - 1);
    }
}

// ---------------------------------------------------------------------------
// Hints of the window manager
// ---------------------------------------------------------------------------
/// A window of the X server has the identifier, the title, the process, the rectangle
/// and the desktop that the server says, goes by its class where it has one, and has
/// the states whose atoms are set: the hidden one means minimised.
pub proof fn law_x11_window_has_what_the_server_says(w: X11Window, order: u32, atoms: EwmhAtoms)
    ensures
        ({
            let r = x11_window_view(w, order, atoms);
            &&& r.id == of_kde(dec(w.window as nat))
            &&& r.title == w.title@
            &&& w.class matches Some(c) ==> r.app_id == c@
            &&& w.class is None ==> r.app_id == w.title@
            &&& w.pid matches Some(p) ==> r.pid == p
            &&& w.pid is None ==> r.pid == 0
            &&& r.geometry == w.geometry
            &&& r.stacking_order == order
            &&& w.desktop == Some(u32::MAX) ==> r.workspace_id is None
            &&& w.desktop is None ==> r.workspace_id is None
            &&& forall|n: u32|
                n < u32::MAX && w.desktop == Some(n) ==> r.workspace_id == Some(
                    #[trigger] of_kde(dec(n as nat)),
                )
            &&& r.keep_above <==> w.states@.contains(atoms._NET_WM_STATE_ABOVE)
            &&& r.states.contains(WindowState::Minimized) <==> w.states@.contains(
                atoms._NET_WM_STATE_HIDDEN,
            )
            &&& r.states.contains(WindowState::Maximized) <==> w.states@.contains(
                atoms._NET_WM_STATE_MAXIMIZED_VERT,
            ) || w.states@.contains(atoms._NET_WM_STATE_MAXIMIZED_HORZ)
            &&& r.states.contains(WindowState::FullScreen) <==> w.states@.contains(
                atoms._NET_WM_STATE_FULLSCREEN,
            )
            &&& w.types is None ==> r.window_type == WindowType::Unknown
        }),
{
    law_flags_are_states(
        w.states@.contains(atoms._NET_WM_STATE_HIDDEN),
        w.states@.contains(atoms._NET_WM_STATE_MAXIMIZED_VERT) || w.states@.contains(
            atoms._NET_WM_STATE_MAXIMIZED_HORZ,
        ),
        w.states@.contains(atoms._NET_WM_STATE_FULLSCREEN),
    );
}

/// The atoms that name types are all different.
pub open spec fn types_differ(a: EwmhAtoms) -> bool {
    let l = seq![
        a._NET_WM_WINDOW_TYPE_NORMAL,
        a._NET_WM_WINDOW_TYPE_DIALOG,
        a._NET_WM_WINDOW_TYPE_DOCK,
        a._NET_WM_WINDOW_TYPE_DESKTOP,
        a._NET_WM_WINDOW_TYPE_MENU,
        a._NET_WM_WINDOW_TYPE_TOOLTIP,
        a._NET_WM_WINDOW_TYPE_SPLASH,
        a._NET_WM_WINDOW_TYPE_UTILITY,
        a._NET_WM_WINDOW_TYPE_NOTIFICATION,
    ];
    forall|i: int, j: int| 0 <= i < j < 9 ==> #[trigger] l[i] != #[trigger] l[j]
}

/// The first type that a window declares counts; a window that declares none is a
/// normal one.
pub proof fn law_first_declared_type_counts(rest: Seq<u32>, atoms: EwmhAtoms)
    requires
        types_differ(atoms),
    ensures
        type_of_atoms(Seq::empty(), atoms) == WindowType::Normal,
        type_of_atoms(seq![atoms._NET_WM_WINDOW_TYPE_NORMAL] + rest, atoms) == WindowType::Normal,
        type_of_atoms(seq![atoms._NET_WM_WINDOW_TYPE_DIALOG] + rest, atoms) == WindowType::Dialog,
        type_of_atoms(seq![atoms._NET_WM_WINDOW_TYPE_DOCK] + rest, atoms) == WindowType::Dock,
        type_of_atoms(seq![atoms._NET_WM_WINDOW_TYPE_DESKTOP] + rest, atoms) == WindowType::Desktop,
        type_of_atoms(seq![atoms._NET_WM_WINDOW_TYPE_MENU] + rest, atoms)
            == WindowType::DropdownMenu,
        type_of_atoms(seq![atoms._NET_WM_WINDOW_TYPE_TOOLTIP] + rest, atoms) == WindowType::Tooltip,
        type_of_atoms(seq![atoms._NET_WM_WINDOW_TYPE_SPLASH] + rest, atoms) == WindowType::Splash,
        type_of_atoms(seq![atoms._NET_WM_WINDOW_TYPE_UTILITY] + rest, atoms) == WindowType::Utility,
        type_of_atoms(seq![atoms._NET_WM_WINDOW_TYPE_NOTIFICATION] + rest, atoms)
            == WindowType::Notification,
{
    let a = atoms;
    let l = seq![
        a._NET_WM_WINDOW_TYPE_NORMAL,
        a._NET_WM_WINDOW_TYPE_DIALOG,
        a._NET_WM_WINDOW_TYPE_DOCK,
        a._NET_WM_WINDOW_TYPE_DESKTOP,
        a._NET_WM_WINDOW_TYPE_MENU,
        a._NET_WM_WINDOW_TYPE_TOOLTIP,
        a._NET_WM_WINDOW_TYPE_SPLASH,
        a._NET_WM_WINDOW_TYPE_UTILITY,
        a._NET_WM_WINDOW_TYPE_NOTIFICATION,
    ];
    assert(forall|i: int, j: int| 0 <= i < j < 9 ==> #[trigger] l[i] != #[trigger] l[j]);
    assert(l[0] != l[1]);
    assert forall|i: int| 0 <= i < 9 implies (seq![#[trigger] l[i]] + rest)[0] == l[i] by {}
    assert(l[0] == a._NET_WM_WINDOW_TYPE_NORMAL && l[1] == a._NET_WM_WINDOW_TYPE_DIALOG && l[2]
        == a._NET_WM_WINDOW_TYPE_DOCK && l[3] == a._NET_WM_WINDOW_TYPE_DESKTOP && l[4]
        == a._NET_WM_WINDOW_TYPE_MENU && l[5] == a._NET_WM_WINDOW_TYPE_TOOLTIP && l[6]
        == a._NET_WM_WINDOW_TYPE_SPLASH && l[7] == a._NET_WM_WINDOW_TYPE_UTILITY && l[8]
        == a._NET_WM_WINDOW_TYPE_NOTIFICATION);
}

/// Windows that could be read are listed in the order of the stack.
pub proof fn law_x11_windows_are_listed_in_order(
    list: Seq<Option<X11Window>>,
    atoms: EwmhAtoms,
    i: int,
)
    requires
        0 <= i < list.len(),
        forall|k: int| 0 <= k < list.len() ==> (#[trigger] list[k]) is Some,
    ensures
        x11_window_views(list, atoms).len() == list.len(),
        x11_window_views(list, atoms)[i] == x11_window_view(list[i]->0, i as u32, atoms),
    decreases list.len(),
{
    let front = list.drop_last();
    assert forall|k: int| 0 <= k < front.len() implies (#[trigger] front[k]) is Some by {
        assert(front[k] == list[k]);
    }
    assert(list[list.len() - 1] is Some);
    if i < front.len() {
        law_x11_windows_are_listed_in_order(front, atoms, i);
    } else if front.len() > 0 {
        law_x11_windows_are_listed_in_order(front, atoms, 0);
    } else {
        assert(x11_window_views(front, atoms).len() == 0);
    }
}

/// A desktop of the X server is known by its number counted from zero, is numbered
/// from one, has its own name or one with its number, and is active if and only if it
/// is the current one.
pub proof fn law_x11_desktop_is_a_workspace(i: u32, current: u32, names: Seq<Seq<char>>)
    requires
        i < u32::MAX,
    ensures
        ({
            let w = x11_workspace_view(i as int, current, names);
            &&& w.id == of_kde(dec(i as nat))
            &&& w.number == i + 1
            &&& w.is_active <==> i == current
            &&& i < names.len() ==> w.name == names[i as int]
            &&& i >= names.len() ==> w.name == "Desktop "@ + dec((i + 1) as nat)
        }),
{
}

/// A window is at the first place where the list holds it.
pub proof fn law_place_in_the_stack(list: Seq<u32>, w: u32)
    requires
        list.contains(w),
    ensures
        0 <= first_position(list, w) < list.len(),
        list[first_position(list, w)] == w,
        forall|k: int| 0 <= k < first_position(list, w) ==> list[k] != w,
    decreases list.len(),
{
    let k = choose|k: int| 0 <= k < list.len() && list[k] == w;
    if list[0] != w {
        assert(list.skip(1)[k - 1] == w);
        law_place_in_the_stack(list.skip(1), w);
        assert forall|j: int| 0 <= j < first_position(list, w) implies list[j] != w by {
            if j > 0 {
                assert(list[j] == list.skip(1)[j - 1]);
            }
        }
    }
}

/// Only the names that are not empty count, in their order.
pub proof fn law_names_are_not_empty(pieces: Seq<Seq<char>>)
    ensures
        forall|i: int| 0 <= i < named(pieces).len() ==> (#[trigger] named(pieces)[i]).len() > 0,
        (forall|i: int| 0 <= i < pieces.len() ==> (#[trigger] pieces[i]).len() > 0) ==> named(pieces)
            == pieces,
    decreases pieces.len(),
{
    if pieces.len() > 0 {
        let front = pieces.drop_last();
        law_names_are_not_empty(front);
        assert forall|i: int| 0 <= i < named(pieces).len() implies (
        #[trigger] named(pieces)[i]).len() > 0 by {
            if i < named(front).len() {
                assert(named(pieces)[i] == named(front)[i]);
            }
        }
        if (forall|i: int| 0 <= i < pieces.len() ==> (#[trigger] pieces[i]).len() > 0) {
            assert forall|i: int| 0 <= i < front.len() implies (#[trigger] front[i]).len() > 0 by {
                assert(front[i] == pieces[i]);
            }
            assert(pieces[pieces.len() - 1].len() > 0);
            assert(named(pieces) =~= pieces);
        }
    }
}

// ---------------------------------------------------------------------------
// Events
// ---------------------------------------------------------------------------
/// A new list of clients means an event for every window that came and one for every
/// window that went, and no other: a window that is only in the new list was added,
/// one that is only in the old list was removed.
pub proof fn law_client_lists_tell_of_changes(prev: Seq<u32>, cur: Seq<u32>, w: u32)
    ensures
        cur.contains(w) && !prev.contains(w) ==> client_events(prev, cur).contains(
            RawView::Added(dec(w as nat)),
        ),
        prev.contains(w) && !cur.contains(w) ==> client_events(prev, cur).contains(
            RawView::Removed(dec(w as nat)),
        ),
        client_events(prev, cur).contains(RawView::Added(dec(w as nat))) ==> cur.contains(w)
            && !prev.contains(w),
        client_events(prev, cur).contains(RawView::Removed(dec(w as nat))) ==> prev.contains(w)
            && !cur.contains(w),
{
    law_difference_members(cur, prev);
    law_difference_members(prev, cur);
    let added = minus(cur, prev);
    let gone = minus(prev, cur);
    let a = added.map_values(|x: u32| RawView::Added(dec(x as nat)));
    let b = gone.map_values(|x: u32| RawView::Removed(dec(x as nat)));
    let all = a + b;
    if added.contains(w) {
        let k = choose|k: int| 0 <= k < added.len() && added[k] == w;
        assert(all[k] == RawView::Added(dec(w as nat)));
    }
    if gone.contains(w) {
        let k = choose|k: int| 0 <= k < gone.len() && gone[k] == w;
        assert(all[a.len() + k] == RawView::Removed(dec(w as nat)));
    }
    if all.contains(RawView::Added(dec(w as nat))) {
        let k = choose|k: int| 0 <= k < all.len() && all[k] == RawView::Added(dec(w as nat));
        assert(k < a.len());
        law_number_of_dec(w as nat);
        law_number_of_dec(added[k] as nat);
        assert(added.contains(added[k]));
    }
    if all.contains(RawView::Removed(dec(w as nat))) {
        let k = choose|k: int| 0 <= k < all.len() && all[k] == RawView::Removed(dec(w as nat));
        assert(k >= a.len());
        law_number_of_dec(w as nat);
        law_number_of_dec(gone[k - a.len()] as nat);
        assert(gone.contains(gone[k - a.len()]));
    }
}

/// A window that becomes the active one is reported; losing the focus is not.
pub proof fn law_new_active_window_is_reported(prev: Option<u32>, w: u32)
    ensures
        prev != Some(w) ==> active_events(prev, Some(w)) == seq![
            RawView::Activated(Some(dec(w as nat))),
        ],
        prev == Some(w) ==> active_events(prev, Some(w)).len() == 0,
        active_events(prev, None).len() == 0,
{
}

/// What the resident script pushes stands for the event that it names, of the window
/// that it names.
pub proof fn law_pushes_stand_for_their_events(v: Json, id: Seq<char>)
    requires
        is_text(v.at("id"@), id),
    ensures
        is_text(v.at("event"@), "windowOpened"@) ==> pushed(v) == Some(RawView::Added(id)),
        is_text(v.at("event"@), "windowClosed"@) ==> pushed(v) == Some(RawView::Removed(id)),
        is_text(v.at("event"@), "windowFocused"@) ==> pushed(v) == Some(
            RawView::Activated(Some(id)),
        ),
        v.at("event"@) is None ==> pushed(v) is None,
{
    reveal_strlit("windowOpened");
    reveal_strlit("windowClosed");
    reveal_strlit("windowFocused");
    assert("windowOpened"@.len() == 12 && "windowClosed"@.len() == 12);
    assert("windowFocused"@.len() == 13);
    assert("windowOpened"@[6] != "windowClosed"@[6]);
}

/// Someone who only follows identifiers hears of a window that appeared or got the
/// focus, by its identifier; of a window that went nothing is said.
pub proof fn law_identifiers_are_announced(v: Json, id: Seq<char>, source: EventSource)
    requires
        is_text(v.at("id"@), id),
    ensures
        is_text(v.at("event"@), "windowOpened"@) || is_text(v.at("event"@), "windowFocused"@)
            ==> approximate_push(v) == Some(
            EventView::WindowClosed { id: of_kde(id), source: EventSource::KWinWayland },
        ),
        is_text(v.at("event"@), "windowClosed"@) ==> approximate_push(v) is None,
        approximate(RawView::Added(id), source) == Some(
            EventView::WindowClosed { id: of_kde(id), source },
        ),
        approximate(RawView::Activated(Some(id)), source) == Some(
            EventView::WindowClosed { id: of_kde(id), source },
        ),
        approximate(RawView::Removed(id), source) is None,
        approximate(RawView::Activated(None), source) is None,
        approximate_native(RawView::Added(id)) == Some(
            EventView::WindowClosed { id: of_kde(id), source: EventSource::KWinWayland },
        ),
        approximate_native(RawView::Removed(id)) is None,
{
    reveal_strlit("windowOpened");
    reveal_strlit("windowClosed");
    reveal_strlit("windowFocused");
    assert("windowOpened"@.len() == 12 && "windowClosed"@.len() == 12);
    assert("windowFocused"@.len() == 13);
    assert("windowOpened"@[6] != "windowClosed"@[6]);
}

/// Unmapping an object that stands for no window says and changes nothing.
pub proof fn law_unknown_object_is_silent(objects: Seq<(u32, Seq<char>)>, object: u32)
    requires
        forall|i: int| 0 <= i < objects.len() ==> (#[trigger] objects[i]).0 != object,
    ensures
        unmapped_event(objects, object) is None,
        after_unmapped(objects, object) == objects,
{
    lemma_no_object(objects, object);
}

proof fn lemma_no_object(objects: Seq<(u32, Seq<char>)>, object: u32)
    requires
        forall|i: int| 0 <= i < objects.len() ==> (#[trigger] objects[i]).0 != object,
    ensures
        crate::kwin::event_native::place_of_object(objects, object) == objects.len(),
    decreases objects.len(),
{
    if objects.len() > 0 {
        assert(objects[0].0 != object);
        assert forall|i: int| 0 <= i < objects.skip(1).len() implies (
        #[trigger] objects.skip(1)[i]).0 != object by {
            assert(objects.skip(1)[i] == objects[i + 1]);
        }
        lemma_no_object(objects.skip(1), object);
    }
}

// ---------------------------------------------------------------------------
// Versions
// ---------------------------------------------------------------------------
/// A version token: a number, and then nothing or a dot and more, without white space.
pub open spec fn is_version(token: Seq<char>, n: u32) -> bool {
    &&& begins(token, dec(n as nat))
    &&& token.len() > dec(n as nat).len() ==> token[dec(n as nat).len() as int] == '.'
    &&& forall|i: int| 0 <= i < token.len() ==> !is_white(#[trigger] token[i])
}

proof fn lemma_version_number(token: Seq<char>, n: u32)
    requires
        is_version(token, n),
    ensures
        crate::text::leading_number(token) == Some(n as nat),
        words(token) == seq![token],
        words(seq![' '] + token) == seq![token],
        token.len() > 0,
{
    let head = dec(n as nat);
    let rest = token.skip(head.len() as int);
    lemma_dec_is_number(n as nat);
    law_read_unsigned_of_dec(n as nat, u32::MAX as nat);
    assert(token == head + rest) by {
        assert(token =~= token.take(head.len() as int) + rest);
    }
    assert(!head.contains('.')) by {
        if head.contains('.') {
            let k = choose|k: int| 0 <= k < head.len() && head[k] == '.';
            assert(is_digit(head[k]));
        }
    }
    if rest.len() == 0 {
        assert(token =~= head);
        law_first_piece_ends_at_separator(head, rest, '.');
    } else {
        assert(token =~= head + seq!['.'] + rest.skip(1));
        law_first_piece_ends_at_separator(head, rest.skip(1), '.');
    }
    law_text_without_white_space_is_one_word(token);
    lemma_word_behind_space(token);
}

proof fn lemma_word_behind_space(t: Seq<char>)
    requires
        t.len() > 0,
        forall|i: int| 0 <= i < t.len() ==> !is_white(#[trigger] t[i]),
    ensures
        words(seq![' '] + t) == seq![t],
    decreases t.len(),
{
    let s = seq![' '] + t;
    assert(!is_white(t[t.len() - 1]));
    assert(s.last() == t[t.len() - 1]);
    if t.len() == 1 {
        assert(s.drop_last() =~= seq![' ']);
        assert(is_white(' '));
        assert(seq![' '].drop_last().len() == 0);
        assert(words(seq![' ']) == words(seq![' '].drop_last()));
        assert(words(seq![' '].drop_last()).len() == 0);
        assert(seq![s.last()] =~= t);
        assert(words(s) =~= seq![t]);
    } else {
        let front = t.drop_last();
        assert forall|i: int| 0 <= i < front.len() implies !is_white(#[trigger] front[i]) by {
            assert(front[i] == t[i]);
        }
        lemma_word_behind_space(front);
        assert(s.drop_last() =~= seq![' '] + front);
        assert(s[s.len() - 2] == t[t.len() - 2]);
        assert(!is_white(t[t.len() - 2]));
        assert(front.push(t.last()) =~= t);
        assert(words(s) =~= seq![t]);
    }
}

/// KWin is of the sixth generation or a later one if and only if the number in front
/// of the first dot of its version is six or more.
pub proof fn law_version_line_states_the_generation(token: Seq<char>, n: u32)
    requires
        is_version(token, n),
    ensures
        version_in_line("KWin version: "@ + token) matches Some(v) && v.full == token && (v.major
            == KWinMajor::V6 <==> n >= 6),
        assumed_version(Some(token)).full == token,
        assumed_version(Some(token)).major == KWinMajor::V6 <==> n >= 6,
        assumed_version(None).major == KWinMajor::V6,
        assumed_version(None).full == "unknown"@,
{
    lemma_version_number(token, n);
    lemma_version_label(token);
}

proof fn lemma_version_label(token: Seq<char>)
    requires
        token.len() > 0,
        !is_white(token[token.len() - 1]),
    ensures
        version_label(trim("KWin version: "@ + token)) == Some(seq![' '] + token),
{
    let line = "KWin version: "@ + token;
    assert(trim(line) == line) by {
        reveal_strlit("KWin version: ");
        assert(line[0] == 'K');
        assert(line.last() == token[token.len() - 1]);
        crate::text::law_trimmed_text_has_no_white_ends(line);
    }
    assert(strip_prefix(line, "KWin version:"@) == Some(seq![' '] + token)) by {
        reveal_strlit("KWin version: ");
        reveal_strlit("KWin version:");
        assert(line.take("KWin version:"@.len() as int) =~= "KWin version:"@);
        assert(line.skip("KWin version:"@.len() as int) =~= seq![' '] + token);
    }
}

// ---------------------------------------------------------------------------
// Scripting
// ---------------------------------------------------------------------------
/// Scripting is found if and only if KWin's object declares the interface. It is
/// missing for sure if and only if KWin answers without it; where KWin does not answer
/// it may only be early.
pub proof fn law_probe_tells_missing_from_unreachable(xml: String, reason: String)
    ensures
        probe_outcome(ProbeReply::Xml(xml)) is Ok <==> contains(
            xml@,
            "<interface name=\"org.kde.kwin.Scripting\""@,
        ),
        probe_outcome(ProbeReply::Xml(xml)) matches Err(e) ==> e is ScriptingUnavailable,
        probe_outcome(ProbeReply::NoObject(reason)) matches Err(
            KWinErrorView::ScriptingUnavailable(_),
        ),
        probe_outcome(ProbeReply::Unreachable(reason)) matches Err(KWinErrorView::Scripting(_)),
        probe_outcome(ProbeReply::NoProxy(reason)) matches Err(KWinErrorView::Scripting(_)),
{
}

/// What a probe found is what is remembered.
pub proof fn law_probe_is_remembered(r: Result<(), KWinErrorView>)
    ensures
        probe_of_code(code_of_result(r)) == (match r {
            Ok(_) => ScriptingProbe::Found,
            Err(KWinErrorView::ScriptingUnavailable(_)) => ScriptingProbe::FailPermanent,
            Err(_) => ScriptingProbe::FailTransient,
        }),
{
}

/// The result of a request is the member `result` of the reply with its identifier;
/// a reply with another one is refused. What carries no identifier is an event.
pub proof fn law_reply_carries_the_result(script: Seq<char>, req: Seq<char>, v: Json, j: Json)
    ensures
        is_text(v.at("req"@), req) && v.at("result"@) == Some(j) ==> result_text(script, req, v)
            == Ok::<Seq<char>, KWinErrorView>(printed(j)),
        is_text(v.at("req"@), req) && v.at("result"@) is None ==> result_text(script, req, v)
            == Ok::<Seq<char>, KWinErrorView>(printed(Json::Null)),
        !is_text(v.at("req"@), req) ==> result_text(script, req, v) is Err,
{
}

/// What arrives with a textual identifier is the result of that request, and what
/// arrives without one is an event.
pub proof fn law_arrivals_are_told_apart(payload: Seq<char>, v: Json, r: Incoming)
    requires
        crate::json::parsed(payload) == Ok::<Json, Seq<char>>(v),
        incoming(payload, r),
    ensures
        v.at("req"@) is None ==> r == Incoming::Event(v),
        forall|req: Seq<char>| #[trigger]
            is_text(v.at("req"@), req) ==> (r matches Incoming::Result(m) && m@ == req),
{
}

/// A run loads the script, opens it, starts it, waits, stops it and ends with the
/// result in the reply. Where no reply comes in time it ends with a timeout of five
/// seconds, and forgets the request; where a step fails it ends with an error.
pub proof fn law_run_takes_its_steps(
    script: Seq<char>,
    req: Seq<char>,
    reply: String,
    reason: String,
)
    ensures
        run_next(script, req, PhaseView::Loading, RunEvent::Loaded) == Some(
            (PhaseView::Opening, ActionView::Open),
        ),
        run_next(script, req, PhaseView::Opening, RunEvent::Opened) == Some(
            (PhaseView::Starting, ActionView::Start),
        ),
        run_next(script, req, PhaseView::Starting, RunEvent::Started) == Some(
            (PhaseView::Waiting, ActionView::Wait),
        ),
        run_next(script, req, PhaseView::Waiting, RunEvent::Reply(reply)) == Some(
            (PhaseView::Replied(reply@), ActionView::Stop { abandon: false }),
        ),
        run_next(script, req, PhaseView::Replied(reply@), RunEvent::Stopped) == Some(
            (
                PhaseView::Done,
                ActionView::Finish { abandon: false, result: answer(script, req, reply@) },
            ),
        ),
        run_next(script, req, PhaseView::Waiting, RunEvent::Timeout) matches Some(next)
            && next.0 == PhaseView::Expired && next.1 is Stop,
        run_next(script, req, PhaseView::Expired, RunEvent::Stopped) == Some(
            (
                PhaseView::Done,
                ActionView::Finish {
                    abandon: true,
                    result: Err(KWinErrorView::ResponseTimeout { script, timeout_secs: 5 }),
                },
            ),
        ),
        run_next(script, req, PhaseView::Loading, RunEvent::LoadFailed(reason)) matches Some(next)
            && (next.1 matches ActionView::Finish { abandon: true, result: Err(_) }),
        run_next(script, req, PhaseView::Starting, RunEvent::StartFailed(reason)) matches Some(next)
            && next.1 == (ActionView::Stop { abandon: true }) && next.0 == PhaseView::NotStarted(
            reason@,
        ),
        run_next(script, req, PhaseView::NotStarted(reason@), RunEvent::Stopped) matches Some(next)
            && (next.1 matches ActionView::Finish { result: Err(KWinErrorView::Scripting(_)), .. }),
{
}

// ---------------------------------------------------------------------------
// Channels
// ---------------------------------------------------------------------------
/// In an X11 session windows and desktops are listed, focused, moved and switched to by
/// the hints of the window manager, without a probe.
pub proof fn law_x11_uses_the_hints(
    bound: bool,
    n: u32,
    id: Seq<char>,
    probe: Option<Result<(), KWinErrorView>>,
)
    ensures
        plan_for(Operation::ListWindows, true, bound, id, probe) == Ok::<Plan, ErrorView>(
            Plan::Ewmh,
        ),
        plan_for(Operation::ListWorkspaces, true, bound, id, probe) == Ok::<Plan, ErrorView>(
            Plan::Ewmh,
        ),
        plan_for(Operation::GetActiveWindow, true, bound, id, probe) == Ok::<Plan, ErrorView>(
            Plan::Ewmh,
        ),
        plan_for(Operation::Subscribe, true, bound, id, probe) == Ok::<Plan, ErrorView>(Plan::Ewmh),
        plan_for(Operation::FocusWindow, true, bound, dec(n as nat), probe) == Ok::<
            Plan,
            ErrorView,
        >(Plan::EwmhTarget(n)),
        plan_for(Operation::MoveWindow, true, bound, dec(n as nat), probe) == Ok::<Plan, ErrorView>(
            Plan::EwmhTarget(n),
        ),
        plan_for(Operation::ActivateWorkspace, true, bound, dec(n as nat), probe) == Ok::<
            Plan,
            ErrorView,
        >(Plan::EwmhTarget(n)),
{
    law_read_unsigned_of_dec(n as nat, u32::MAX as nat);
}

/// Where the window protocol is bound, windows are focused, minimised, restored and
/// closed by it; where it is not, by a script.
pub proof fn law_protocol_goes_before_scripts(
    id: Seq<char>,
    probe: Option<Result<(), KWinErrorView>>,
)
    ensures
        plan_for(Operation::FocusWindow, false, true, id, probe) == Ok::<Plan, ErrorView>(
            Plan::Protocol,
        ),
        plan_for(Operation::MinimizeWindow, false, true, id, probe) == Ok::<Plan, ErrorView>(
            Plan::Protocol,
        ),
        plan_for(Operation::UnminimizeWindow, false, true, id, probe) == Ok::<Plan, ErrorView>(
            Plan::Protocol,
        ),
        plan_for(Operation::CloseWindow, false, true, id, probe) == Ok::<Plan, ErrorView>(
            Plan::Protocol,
        ),
        plan_for(Operation::MinimizeWindow, false, false, id, probe) == Ok::<Plan, ErrorView>(
            Plan::Script,
        ),
        plan_for(Operation::UnminimizeWindow, false, false, id, probe) == Ok::<Plan, ErrorView>(
            Plan::Script,
        ),
        plan_for(Operation::CloseWindow, false, false, id, probe) == Ok::<Plan, ErrorView>(
            Plan::Script,
        ),
        plan_for(Operation::MaximizeWindow, false, true, id, probe) == Ok::<Plan, ErrorView>(
            Plan::Script,
        ),
        plan_for(Operation::SetWindowGeometry, false, true, id, probe) == Ok::<Plan, ErrorView>(
            Plan::Script,
        ),
        plan_for(Operation::MoveWindowToWorkspace, false, true, id, probe) == Ok::<Plan, ErrorView>(
            Plan::Script,
        ),
        plan_for(Operation::ListMonitors, false, true, id, probe) == Ok::<Plan, ErrorView>(
            Plan::Script,
        ),
{
}

/// On Wayland what depends on scripting is probed first; where scripting was found a
/// script is run. Where it is missing for sure, lists and switches go by KWin's own
/// interface, and what only a script can do is not offered.
pub proof fn law_scripting_decides_on_wayland(bound: bool, id: Seq<char>, m: Seq<char>)
    ensures
        plan_for(Operation::ListWindows, false, bound, id, None) == Ok::<Plan, ErrorView>(
            Plan::Probe,
        ),
        plan_for(Operation::ListWindows, false, bound, id, Some(Ok(()))) == Ok::<Plan, ErrorView>(
            Plan::Script,
        ),
        plan_for(
            Operation::ListWindows,
            false,
            bound,
            id,
            Some(Err(KWinErrorView::Scripting(m))),
        ) == Ok::<Plan, ErrorView>(Plan::NativeThenScript),
        plan_for(Operation::ListWorkspaces, false, bound, id, Some(Ok(()))) == Ok::<
            Plan,
            ErrorView,
        >(Plan::Script),
        plan_for(
            Operation::ListWorkspaces,
            false,
            bound,
            id,
            Some(Err(KWinErrorView::Scripting(m))),
        ) == Ok::<Plan, ErrorView>(Plan::NativeThenScript),
        plan_for(Operation::MoveWindow, false, bound, id, None) == Ok::<Plan, ErrorView>(
            Plan::Probe,
        ),
        plan_for(Operation::MoveWindow, false, bound, id, Some(Ok(()))) == Ok::<Plan, ErrorView>(
            Plan::Script,
        ),
        plan_for(
            Operation::MoveWindow,
            false,
            bound,
            id,
            Some(Err(KWinErrorView::ScriptingUnavailable(m))),
        ) matches Err(ErrorView::NotImplemented(_)),
        plan_for(Operation::ResizeWindow, false, bound, id, Some(Ok(()))) == Ok::<Plan, ErrorView>(
            Plan::Script,
        ),
        plan_for(
            Operation::ResizeWindow,
            false,
            bound,
            id,
            Some(Err(KWinErrorView::ScriptingUnavailable(m))),
        ) matches Err(ErrorView::NotImplemented(_)),
        plan_for(Operation::FocusWindow, false, false, id, Some(Ok(()))) == Ok::<Plan, ErrorView>(
            Plan::Script,
        ),
        plan_for(
            Operation::FocusWindow,
            false,
            false,
            id,
            Some(Err(KWinErrorView::ScriptingUnavailable(m))),
        ) matches Err(ErrorView::NotImplemented(_)),
        plan_for(Operation::ActivateWorkspace, false, bound, id, Some(Ok(()))) == Ok::<
            Plan,
            ErrorView,
        >(Plan::Script),
        plan_for(
            Operation::ActivateWorkspace,
            false,
            bound,
            id,
            Some(Err(KWinErrorView::ScriptingUnavailable(m))),
        ) == Ok::<Plan, ErrorView>(Plan::Native),
        plan_for(Operation::Subscribe, false, bound, id, Some(Ok(()))) == Ok::<Plan, ErrorView>(
            Plan::Script,
        ),
        plan_for(
            Operation::Subscribe,
            false,
            bound,
            id,
            Some(Err(KWinErrorView::ScriptingUnavailable(m))),
        ) == Ok::<Plan, ErrorView>(Plan::Native),
        plan_for(Operation::GetActiveWindow, false, bound, id, None) == Ok::<Plan, ErrorView>(
            Plan::Script,
        ),
{
}

/// Each error of the channel becomes a component error of its kind, with its text.
pub proof fn law_errors_keep_their_kind(m: Seq<char>, i: Seq<char>, secs: u64)
    ensures
        KWinErrorView::Scripting(m).shell_error() == ErrorView::DBus("kwin scripting: "@ + m),
        KWinErrorView::ScriptingUnavailable(m).shell_error() == ErrorView::DBus(
            "kwin scripting: "@ + m,
        ),
        KWinErrorView::InvalidScriptOutput(m).shell_error() == ErrorView::DBus(
            "kwin script output: "@ + m,
        ),
        (KWinErrorView::ProtocolBind { interface: i, reason: m }).shell_error()
            == ErrorView::BackendUnavailable("kwin "@ + i + ": "@ + m),
        KWinErrorView::FakeInputNotAuthenticated.shell_error() matches ErrorView::Permission(_),
        (KWinErrorView::ResponseTimeout { script: m, timeout_secs: secs }).shell_error()
            == ErrorView::Timeout(
            "kwin script `"@ + m + "` no response in "@ + dec(secs as nat) + "s"@,
        ),
{
}

// ---------------------------------------------------------------------------
// The first of several
// ---------------------------------------------------------------------------
/// The first line that states a version is the one that counts.
pub proof fn law_first_version_line_counts(ls: Seq<Seq<char>>, i: int)
    requires
        0 <= i < ls.len(),
        version_in_line(ls[i]) is Some,
        forall|k: int| 0 <= k < i ==> version_in_line(#[trigger] ls[k]) is None,
    ensures
        first_version(ls) == version_in_line(ls[i]),
    decreases i,
{
    if i > 0 {
        let rest = ls.skip(1);
        assert(version_in_line(ls[0]) is None);
        assert(rest[i - 1] == ls[i]);
        assert forall|k: int| 0 <= k < i - 1 implies version_in_line(#[trigger] rest[k]) is None by {
            assert(rest[k] == ls[k + 1]);
        }
        law_first_version_line_counts(rest, i - 1);
    }
}

/// Without a line that states one there is no version.
pub proof fn law_no_version_line_means_no_version(ls: Seq<Seq<char>>)
    requires
        forall|k: int| 0 <= k < ls.len() ==> version_in_line(#[trigger] ls[k]) is None,
    ensures
        first_version(ls) is None,
    decreases ls.len(),
{
    if ls.len() > 0 {
        let rest = ls.skip(1);
        assert(version_in_line(ls[0]) is None);
        assert forall|k: int| 0 <= k < rest.len() implies version_in_line(#[trigger] rest[k])
            is None by {
            assert(rest[k] == ls[k + 1]);
        }
        law_no_version_line_means_no_version(rest);
    }
}

/// A request is answered where its own waiter waits, and nowhere without one.
pub proof fn law_requests_find_their_waiters(waiters: Seq<(String, u64)>, req: Seq<char>)
    requires
        distinct_requests(waiters),
    ensures
        slot_of(waiters, req) matches Some(n) ==> exists|i: int|
            0 <= i < waiters.len() && (#[trigger] waiters[i]).0@ == req && waiters[i].1 == n,
        forall|i: int|
            0 <= i < waiters.len() && (#[trigger] waiters[i]).0@ == req ==> slot_of(waiters, req)
                == Some(waiters[i].1),
    decreases waiters.len(),
{
    if waiters.len() > 0 {
        let rest = waiters.skip(1);
        assert(distinct_requests(rest)) by {
            assert forall|i: int, j: int| 0 <= i < j < rest.len() implies (#[trigger] rest[i]).0@
                != (#[trigger] rest[j]).0@ by {
                assert(rest[i] == waiters[i + 1]);
                assert(rest[j] == waiters[j + 1]);
            }
        }
        law_requests_find_their_waiters(rest, req);
        assert forall|i: int| 0 <= i < waiters.len() && (#[trigger] waiters[i]).0@
            == req implies slot_of(waiters, req) == Some(waiters[i].1) by {
            if i > 0 {
                assert(waiters[0].0@ != waiters[i].0@);
                assert(rest[i - 1] == waiters[i]);
            }
        }
        if waiters[0].0@ != req && slot_of(waiters, req) is Some {
            let n = slot_of(waiters, req)->0;
            let i = choose|i: int|
                0 <= i < rest.len() && (#[trigger] rest[i]).0@ == req && rest[i].1 == n;
            assert(rest[i] == waiters[i + 1]);
        }
    }
}

// ---------------------------------------------------------------------------
// The report
// ---------------------------------------------------------------------------
/// The report counts the bound protocols and names each of them.
pub proof fn law_report_names_the_bound_protocols(p: KWinProtocols, version: u32)
    requires
        p.window_mgmt matches Some(w) && w.advertised_version == version,
    ensures
        p.fake_input is Some && p.vd_mgmt ==> p.bound() == 3 && protocol_details(p) == seq![
            "window_mgmt v"@ + dec(version as nat),
            "fake_input v5+"@,
            "vd_mgmt bound"@,
        ],
        p.fake_input is None && p.vd_mgmt ==> p.bound() == 2 && protocol_details(p) == seq![
            "window_mgmt v"@ + dec(version as nat),
            "vd_mgmt bound"@,
        ],
        p.fake_input is Some && !p.vd_mgmt ==> p.bound() == 2 && protocol_details(p) == seq![
            "window_mgmt v"@ + dec(version as nat),
            "fake_input v5+"@,
        ],
        p.fake_input is None && !p.vd_mgmt ==> p.bound() == 1 && protocol_details(p) == seq![
            "window_mgmt v"@ + dec(version as nat),
        ],
        protocol_line(p) == "✓"@ + " Wayland 协议 : "@ + dec(p.bound()) + "/3 globals bound ("@
            + join(protocol_details(p), ", "@) + ")"@,
{
}

/// The report warns where nothing is bound.
pub proof fn law_report_warns_without_protocols(p: KWinProtocols)
    requires
        p.window_mgmt is None,
        p.fake_input is None,
        !p.vd_mgmt,
    ensures
        p.bound() == 0,
        protocol_details(p).len() == 0,
        begins(protocol_line(p), "⚠"@),
        begins(input_line(p), "⚠"@),
{
    reveal_strlit("⚠");
    reveal_strlit("⚠ 输入注入   : 无 fake_input（降级 libei/ydotool/XTest/xdotool）");
    assert(protocol_line(p).take(1) =~= "⚠"@);
    assert(input_line(p).take(1) =~= "⚠"@);
}

/// The lines on the service, the bridge and the resident script tell what was found.
pub proof fn law_report_tells_what_was_found(
    full: Seq<char>,
    own: Option<Result<(), String>>,
    late: Option<RegistrationOutcome>,
    msg: String,
)
    requires
        full != "unknown"@,
    ensures
        version_line(full) == "✓"@ + " KWin 服务   : org.kde.KWin "@ + ("v"@ + full),
        version_line("unknown"@) == "⚠"@ + " KWin 服务   : org.kde.KWin "@
            + "version probe failed (supportInformation)"@,
        bridge_line(ScriptingProbe::Found)
            == "✓ D-Bus 桥接 : callDBus ready (14 templates, req-id routed; /Scripting introspected)"@,
        bridge_line(ScriptingProbe::Unset)
            == "⚠ D-Bus 桥接 : 未探测（调用 ensure_scripting_probe 后更新）"@,
        bridge_line(ScriptingProbe::FailPermanent)
            == "⚠ D-Bus 桥接 : /Scripting 未就绪（未注册/确证缺失）；窗口/工作区走会话原生通道，Scripting 按需重试"@,
        bridge_line(ScriptingProbe::FailTransient)
            == "⚠ D-Bus 桥接 : /Scripting 未就绪（不可达/瞬时）；窗口/工作区走会话原生通道，Scripting 按需重试"@,
        event_line(Some(Ok(())), late)
            == "✓ 事件脚本    : signals registered (windowAdded/windowRemoved/windowActivated OK)"@,
        event_line(Some(Err(msg)), late) == "✗ 事件脚本    : signal registration failed: "@ + msg@,
        event_line(None, Some(RegistrationOutcome::Ready))
            == "⚠ 事件脚本    : 检测到外部实例已注册（本组件未加载，疑似残留 event_monitor）"@,
        event_line(None, Some(RegistrationOutcome::Failed(msg)))
            == "✗ 事件脚本    : 外部实例信号注册失败: "@ + msg@,
        event_line(None, None) == "⚠ 事件脚本    : 未加载（懒启动，首次 events subscribe 时装配）"@,
{
}

// ---------------------------------------------------------------------------
// What is refused
// ---------------------------------------------------------------------------
/// An identifier that denotes nothing is refused with its own text.
pub proof fn law_refused_identifiers_are_named(id: Seq<char>, desktops: Seq<VirtualDesktop>)
    requires
        read_unsigned(id, u32::MAX as nat) is None,
        forall|i: int| 0 <= i < desktops.len() ==> (#[trigger] desktops[i]).id@ != id,
    ensures
        x11_window(id) == Err::<u32, ErrorView>(
            ErrorView::WindowNotFound("invalid window id: "@ + id),
        ),
        x11_workspace(id) == Err::<u32, ErrorView>(
            ErrorView::Other("invalid workspace id: "@ + id),
        ),
        desktop_target(desktops, id) == Err::<Seq<char>, ErrorView>(
            ErrorView::Other("unknown workspace id: "@ + id),
        ),
{
}

/// Arguments that are neither texts nor numbers are refused under their name.
pub proof fn law_other_arguments_are_refused(key: Seq<char>, v: Json)
    requires
        !(v is Str),
        !(v is Number),
    ensures
        argument(key, v) == Err::<Seq<char>, KWinErrorView>(
            KWinErrorView::InvalidScriptOutput(
                "unsupported arg type for %"@ + key + "%: "@ + printed(v),
            ),
        ),
{
}

} // verus!
