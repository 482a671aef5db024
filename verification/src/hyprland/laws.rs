//! What holds of the lines and answers of Hyprland, stated on their text and members
//! and on the fields of what becomes of them.

use vstd::prelude::*;

use crate::hyprland::cache::{
    fullscreen_states, id_of_address, lemma_found_at, lemma_window_position, topmost, upserted,
    window_position,
};
use crate::hyprland::compositor::{
    client, client_list, client_states, clients, monitor_entry, private_bound, protocol_names,
    protocols_line, session_line, socket_line, stream_line, workspace_entry, SocketReport,
    WlrReport,
};
use crate::hyprland::event_socket::{
    field_number, focus_window, on_close, on_focus, on_fullscreen, on_line, on_open, on_workspace, tells_of,
    SessionView,
};
use crate::hyprland::hyprctl::{
    accepted, answer_value, at_address, exact_action, float_action, session_dir,
};
use crate::hyprland::wayland::{add_failure, HyprlandBindings};
use crate::json::{is_int, is_text, parsed, Json};
use crate::text::{
    begins, dec, dec_int, index_of, is_digit, is_white, join, law_paths_are_joined_by_a_slash,
    law_read_unsigned_of_dec, lemma_dec_is_number, lower, lower_all, position, read_unsigned,
    split_once, split_text, trim, unsigned_part,
};
use crate::types::{
    find_window, law_only_the_window_is_taken_away, lemma_filter_keeps, DesktopEnvironment,
    ErrorView, EventSource, EventView, IdView, Rect, WindowState, WindowType, WindowView,
};

verus! {

// ---------------------------------------------------------------------------
// Lines
// ---------------------------------------------------------------------------
/// A line is cut behind its name.
proof fn lemma_line_is_cut(name: Seq<char>, data: Seq<char>)
    requires
        !name.contains('>'),
    ensures
        split_text(name + ">>"@ + data, ">>"@) == Some((name, data)),
{
    reveal_strlit(">>");
    lemma_mark_is_behind(name, data);
    let s = name + ">>"@ + data;
    assert(s.take(name.len() as int) == name);
    assert(s.skip(name.len() as int + 2) == data);
}

proof fn lemma_mark_is_behind(name: Seq<char>, data: Seq<char>)
    requires
        !name.contains('>'),
    ensures
        position(name + ">>"@ + data, ">>"@) == Some(name.len() as int),
    decreases name.len(),
{
    reveal_strlit(">>");
    let s = name + ">>"@ + data;
    if name.len() == 0 {
        assert(s.take(2) == ">>"@);
    } else {
        assert(name.contains(name[0]));
        assert(s[0] == name[0]);
        if begins(s, ">>"@) {
            assert(s.take(2)[0] == ">>"@[0]);
        }
        let rest = name.skip(1);
        assert(!rest.contains('>')) by {
            if rest.contains('>') {
                let k = choose|k: int| 0 <= k < rest.len() && rest[k] == '>';
                assert(name[k + 1] == '>');
            }
        }
        lemma_mark_is_behind(rest, data);
        assert(s.skip(1) == rest + ">>"@ + data);
    }
}

/// The names of the events hold no mark and differ from each other.
proof fn lemma_event_names()
    ensures
        !"openwindow"@.contains('>'),
        !"closewindow"@.contains('>'),
        !"activewindowv2"@.contains('>'),
        !"workspacev2"@.contains('>'),
        !"fullscreen"@.contains('>'),
        "openwindow"@ != "closewindow"@,
        "openwindow"@ != "activewindowv2"@,
        "openwindow"@ != "workspacev2"@,
        "openwindow"@ != "fullscreen"@,
        "closewindow"@ != "activewindowv2"@,
        "closewindow"@ != "workspacev2"@,
        "closewindow"@ != "fullscreen"@,
        "activewindowv2"@ != "workspacev2"@,
        "activewindowv2"@ != "fullscreen"@,
        "workspacev2"@ != "fullscreen"@,
{
    reveal_strlit("openwindow");
    reveal_strlit("closewindow");
    reveal_strlit("activewindowv2");
    reveal_strlit("workspacev2");
    reveal_strlit("fullscreen");
    assert("openwindow"@[0] != "fullscreen"@[0]);
    assert("closewindow"@[0] != "workspacev2"@[0]);
}

/// A text without white space at its ends, which needs no trimming.
pub open spec fn tidy(s: Seq<char>) -> bool {
    s.len() > 0 ==> !is_white(s[0]) && !is_white(s.last())
}

/// An address as it is written in events: without white space and without "0x".
pub open spec fn plain_address(a: Seq<char>) -> bool {
    tidy(a) && !(a.len() >= 2 && a[0] == '0' && a[1] == 'x')
}

/// The identity of the window at a plain address, with or without "0x".
pub proof fn law_address_is_the_identity(a: Seq<char>)
    requires
        plain_address(a),
    ensures
        id_of_address(a) == (IdView { native_id: a, de_type: DesktopEnvironment::Hyprland }),
        id_of_address("0x"@ + a) == id_of_address(a),
{
    reveal_strlit("0x");
    assert(("0x"@ + a).skip(2) == a);
}

/// The line `fullscreen>>1` reports that the focused window went fullscreen and gives
/// it that state where it is known; the line `fullscreen>>0` reports that it came back
/// and takes the state away. Its other states and all other windows stay.
#[verifier::rlimit(60)]
pub proof fn law_fullscreen_lines_switch_the_focused_window(s: SessionView, i: int)
    requires
        s.focus.len() > 0,
        0 <= i < s.windows.len(),
    ensures
        ({
            let id = id_of_address(s.focus);
            let on = on_line(s, "fullscreen>>1"@);
            let off = on_line(s, "fullscreen>>0"@);
            let known = s.windows[i].id == id && forall|k: int|
                0 <= k < i ==> (#[trigger] s.windows[k]).id != id;
            &&& on.1 == Some(
                EventView::FullscreenChanged {
                    enabled: true,
                    window_id: Some(id),
                    source: EventSource::Hyprland,
                },
            )
            &&& off.1 == Some(
                EventView::FullscreenChanged {
                    enabled: false,
                    window_id: Some(id),
                    source: EventSource::Hyprland,
                },
            )
            &&& on.0.focus == s.focus && off.0.focus == s.focus
            &&& on.0.windows.len() == s.windows.len() && off.0.windows.len() == s.windows.len()
            &&& known ==> on.0.windows[i].states.contains(WindowState::FullScreen)
            &&& known ==> !off.0.windows[i].states.contains(WindowState::FullScreen)
            &&& forall|x: WindowState|
                x != WindowState::FullScreen ==> (#[trigger] on.0.windows[i].states.contains(x)
                    <==> s.windows[i].states.contains(x))
            &&& forall|x: WindowState|
                x != WindowState::FullScreen ==> (#[trigger] off.0.windows[i].states.contains(x)
                    <==> s.windows[i].states.contains(x))
            &&& s.windows[i].id != id ==> on.0.windows[i] == s.windows[i] && off.0.windows[i]
                == s.windows[i]
            &&& on.0.windows[i] == (WindowView { states: on.0.windows[i].states, ..s.windows[i] })
            &&& off.0.windows[i] == (WindowView {
                states: off.0.windows[i].states,
                ..s.windows[i]
            })
        }),
{
    law_fullscreen_line_names_its_value(s, "1"@);
    law_fullscreen_line_names_its_value(s, "0"@);
    reveal_strlit("fullscreen>>1");
    reveal_strlit("fullscreen>>0");
    reveal_strlit("fullscreen>>");
    reveal_strlit("1");
    reveal_strlit("0");
    assert("fullscreen>>"@ + "1"@ == "fullscreen>>1"@);
    assert("fullscreen>>"@ + "0"@ == "fullscreen>>0"@);
    assert("1"@[0] != "0"@[0]);
    crate::text::law_trimmed_text_has_no_white_ends("1"@);
    crate::text::law_trimmed_text_has_no_white_ends("0"@);
    let id = id_of_address(s.focus);
    lemma_window_position(s.windows, id);
    if s.windows[i].id == id && forall|k: int| 0 <= k < i ==> (#[trigger] s.windows[k]).id != id {
        lemma_found_at(s.windows, id, i);
    }
    let p = window_position(s.windows, id);
    lemma_fullscreen_states(s.windows[p].states);
    lemma_line_is_fullscreen(s, "1"@);
    lemma_line_is_fullscreen(s, "0"@);
    assert(on_line(s, "fullscreen>>1"@).0.windows == crate::hyprland::cache::fullscreen_set(
        s.windows,
        id,
        true,
    ));
    assert(on_line(s, "fullscreen>>0"@).0.windows == crate::hyprland::cache::fullscreen_set(
        s.windows,
        id,
        false,
    ));
}

proof fn lemma_fullscreen_states(states: Seq<WindowState>)
    ensures
        fullscreen_states(states, true).contains(WindowState::FullScreen),
        !fullscreen_states(states, false).contains(WindowState::FullScreen),
        forall|x: WindowState|
            x != WindowState::FullScreen ==> (#[trigger] fullscreen_states(states, true).contains(x)
                <==> states.contains(x)),
        forall|x: WindowState|
            x != WindowState::FullScreen ==> (#[trigger] fullscreen_states(states, false).contains(
                x,
            ) <==> states.contains(x)),
{
    let keep = |s: WindowState| s != WindowState::FullScreen;
    let rest = states.filter(keep);
    let on = fullscreen_states(states, true);
    assert(on == rest.push(WindowState::FullScreen));
    assert(on[rest.len() as int] == WindowState::FullScreen);
    assert forall|x: WindowState| #[trigger] rest.contains(x) <==> states.contains(x) && keep(
        x,
    ) by {
        lemma_filter_keeps(states, keep, x);
    }
    assert forall|x: WindowState| x != WindowState::FullScreen implies (#[trigger] on.contains(x)
        <==> states.contains(x)) by {
        if on.contains(x) {
            let k = choose|k: int| 0 <= k < on.len() && on[k] == x;
            assert(rest[k] == x);
            assert(rest.contains(x));
        }
        if states.contains(x) {
            assert(rest.contains(x));
            let k = choose|k: int| 0 <= k < rest.len() && rest[k] == x;
            assert(on[k] == x);
        }
    }
}

proof fn lemma_line_is_fullscreen(s: SessionView, data: Seq<char>)
    ensures
        on_line(s, "fullscreen>>"@ + data) == on_fullscreen(s, data),
{
    lemma_event_names();
    reveal_strlit("fullscreen>>");
    reveal_strlit("fullscreen");
    reveal_strlit(">>");
    assert("fullscreen>>"@ == "fullscreen"@ + ">>"@);
    lemma_line_is_cut("fullscreen"@, data);
}

proof fn lemma_line_is_workspace(s: SessionView, data: Seq<char>)
    ensures
        on_line(s, "workspacev2>>"@ + data) == on_workspace(s, data),
{
    lemma_event_names();
    reveal_strlit("workspacev2>>");
    reveal_strlit("workspacev2");
    reveal_strlit(">>");
    assert("workspacev2>>"@ == "workspacev2"@ + ">>"@);
    lemma_line_is_cut("workspacev2"@, data);
}

proof fn lemma_line_is_open(s: SessionView, data: Seq<char>)
    ensures
        on_line(s, "openwindow>>"@ + data) == on_open(s, data),
{
    lemma_event_names();
    reveal_strlit("openwindow>>");
    reveal_strlit("openwindow");
    reveal_strlit(">>");
    assert("openwindow>>"@ == "openwindow"@ + ">>"@);
    lemma_line_is_cut("openwindow"@, data);
}

proof fn lemma_line_is_close(s: SessionView, data: Seq<char>)
    ensures
        on_line(s, "closewindow>>"@ + data) == on_close(s, data),
{
    lemma_event_names();
    reveal_strlit("closewindow>>");
    reveal_strlit("closewindow");
    reveal_strlit(">>");
    assert("closewindow>>"@ == "closewindow"@ + ">>"@);
    lemma_line_is_cut("closewindow"@, data);
}

proof fn lemma_line_is_focus(s: SessionView, data: Seq<char>)
    ensures
        on_line(s, "activewindowv2>>"@ + data) == on_focus(s, data),
{
    lemma_event_names();
    reveal_strlit("activewindowv2>>");
    reveal_strlit("activewindowv2");
    reveal_strlit(">>");
    assert("activewindowv2>>"@ == "activewindowv2"@ + ">>"@);
    lemma_line_is_cut("activewindowv2"@, data);
}

/// With a focused window, a fullscreen line reports "on" if and only if its value is
/// `1`; without one it says nothing and changes nothing.
pub proof fn law_fullscreen_line_names_its_value(s: SessionView, data: Seq<char>)
    ensures
        s.focus.len() > 0 ==> (on_line(s, "fullscreen>>"@ + data).1 matches Some(
            EventView::FullscreenChanged { enabled, window_id, source: EventSource::Hyprland },
        ) && (enabled <==> trim(data) == "1"@) && window_id == Some(id_of_address(s.focus))),
        s.focus.len() == 0 ==> on_line(s, "fullscreen>>"@ + data) == (s, None::<EventView>),
{
    lemma_line_is_fullscreen(s, data);
}

/// A closed window is reported by its address and is not known any more; the others
/// stay, and so does the focus.
pub proof fn law_close_line_forgets_the_window(s: SessionView, address: Seq<char>, w: WindowView)
    requires
        plain_address(address),
    ensures
        ({
            let id = IdView { native_id: address, de_type: DesktopEnvironment::Hyprland };
            let next = on_line(s, "closewindow>>"@ + address);
            &&& next.1 == Some(EventView::WindowClosed { id, source: EventSource::Hyprland })
            &&& next.0.windows.contains(w) <==> s.windows.contains(w) && w.id != id
            &&& next.0.focus == s.focus
        }),
{
    lemma_line_is_close(s, address);
    crate::text::law_trimmed_text_has_no_white_ends(address);
    law_address_is_the_identity(address);
    law_only_the_window_is_taken_away(s.windows, id_of_address(address), w);
}

/// When the focus moves, the window at the address is reported: the known one, or
/// else one with nothing but the identity. Without an address nothing is reported.
/// The windows stay as they were.
pub proof fn law_focus_line_moves_the_focus(s: SessionView, address: Seq<char>)
    requires
        plain_address(address),
    ensures
        ({
            let id = IdView { native_id: address, de_type: DesktopEnvironment::Hyprland };
            let next = on_line(s, "activewindowv2>>"@ + address);
            &&& next.0.windows == s.windows
            &&& next.0.focus == address
            &&& address.len() == 0 ==> next.1 is None
            &&& address.len() > 0 ==> (next.1 matches Some(
                EventView::WindowFocused { info, source: EventSource::Hyprland },
            ) && info.id == id && (find_window(s.windows, id) matches Some(w) ==> info == w))
        }),
{
    lemma_line_is_focus(s, address);
    crate::text::law_trimmed_text_has_no_white_ends(address);
    law_address_is_the_identity(address);
    crate::types::law_window_is_found_by_its_identity(s.windows, id_of_address(address));
}

proof fn lemma_comma(a: Seq<char>, b: Seq<char>)
    requires
        !a.contains(','),
    ensures
        split_once(a + ","@ + b, ',') == Some((a, b)),
        split_once(a, ',') is None,
    decreases a.len(),
{
    reveal_strlit(",");
    let s = a + ","@ + b;
    crate::text::lemma_index_of(s, ',');
    crate::text::lemma_index_of(a, ',');
    let i = index_of(s, ',');
    assert(s[a.len() as int] == ',');
    if i < a.len() {
        assert(a[i] == ',');
    }
    assert(i == a.len());
    assert(s.take(i) == a);
    assert(s.skip(i + 1) == b);
    let j = index_of(a, ',');
    if j < a.len() {
        assert(a[j] == ',');
    }
}

/// A change of the workspace is reported with the identifier in front of the comma
/// and the name behind it. Nothing else changes.
#[verifier::rlimit(60)]
pub proof fn law_workspace_line_names_the_workspace(s: SessionView, id: Seq<char>, name: Seq<char>)
    requires
        !id.contains(','),
        tidy(id),
        tidy(name),
    ensures
        ({
            let next = on_line(s, "workspacev2>>"@ + (id + ","@ + name));
            &&& next.0 == s
            &&& next.1 matches Some(
                EventView::WorkspaceChanged { info, source: EventSource::Hyprland },
            ) && info.id == (IdView { native_id: id, de_type: DesktopEnvironment::Hyprland })
                && info.name == name && info.is_active && info.number == 0 && info.monitor_ids.len()
                == 0 && info.window_ids.len() == 0
        }),
{
    let data = id + ","@ + name;
    lemma_line_is_workspace(s, data);
    lemma_comma(id, name);
    crate::text::law_trimmed_text_has_no_white_ends(id);
    crate::text::law_trimmed_text_has_no_white_ends(name);
}

/// An opened window is reported with its address, its workspace, its class and its
/// title: what stands in front of the first, the second and the third comma, and all
/// that follows the third. It is then known as it was reported.
#[verifier::rlimit(60)]
pub proof fn law_open_line_reports_its_fields(
    s: SessionView,
    address: Seq<char>,
    workspace: u32,
    class: Seq<char>,
    title: Seq<char>,
)
    requires
        plain_address(address),
        !address.contains(','),
        !class.contains(','),
        title.len() > 0,
    ensures
        ({
            let id = IdView { native_id: address, de_type: DesktopEnvironment::Hyprland };
            let next = on_line(
                s,
                "openwindow>>"@ + (address + ","@ + (dec(workspace as nat) + ","@ + (class + ","@
                    + title))),
            );
            &&& next.1 matches Some(
                EventView::WindowOpened { info, source: EventSource::Hyprland },
            ) && info.id == id && info.app_id == class && info.title == title && info.workspace_id
                == Some(
                IdView {
                    native_id: dec(workspace as nat),
                    de_type: DesktopEnvironment::Hyprland,
                },
            ) && find_window(next.0.windows, id) == Some(info)
            &&& next.0.focus == s.focus
        }),
{
    let number = dec(workspace as nat);
    let rest2 = class + ","@ + title;
    let rest1 = number + ","@ + rest2;
    let data = address + ","@ + rest1;
    lemma_line_is_open(s, data);
    lemma_comma(address, rest1);
    lemma_dec_is_number(workspace as nat);
    assert(!number.contains(',')) by {
        if number.contains(',') {
            let k = choose|k: int| 0 <= k < number.len() && number[k] == ',';
            assert(crate::text::is_digit(number[k]));
        }
    }
    lemma_comma(number, rest2);
    lemma_comma(class, title);
    crate::text::law_trimmed_text_has_no_white_ends(address);
    assert(crate::text::is_digit(number[0]) && crate::text::is_digit(number[number.len() - 1]));
    crate::text::law_trimmed_text_has_no_white_ends(number);
    law_read_unsigned_of_dec(workspace as nat, u32::MAX as nat);
    law_address_is_the_identity(address);
    crate::hyprland::event_socket::law_open_is_reported(s, data);
    crate::hyprland::cache::law_announced_window_is_found(
        s.windows,
        address,
        workspace,
        class,
        title,
        (s.windows.len() as u32 + 1) as u32,
        id_of_address(address),
    );
    crate::types::law_window_is_found_by_its_identity(
        on_line(s, "openwindow>>"@ + data).0.windows,
        id_of_address(address),
    );
}

/// Lines of other events, and lines without the mark, change and report nothing.
pub proof fn law_other_lines_are_silent(s: SessionView, name: Seq<char>, data: Seq<char>)
    requires
        !name.contains('>'),
        name != "openwindow"@,
        name != "closewindow"@,
        name != "activewindowv2"@,
        name != "workspacev2"@,
        name != "fullscreen"@,
    ensures
        on_line(s, name + ">>"@ + data) == (s, None::<EventView>),
{
    lemma_line_is_cut(name, data);
}

// ---------------------------------------------------------------------------
// Answers
// ---------------------------------------------------------------------------
/// A window has the address, the title, the class, the process, the workspace and the
/// monitor of its client, and its place in the list tells how it is stacked.
pub proof fn law_client_has_its_members(
    list: Vec<Json>,
    i: int,
    address: Seq<char>,
    title: Seq<char>,
    class: Seq<char>,
    pid: u32,
)
    requires
        0 <= i < list@.len(),
        is_text(list@[i].at("address"@), "0x"@ + address),
        plain_address(address),
        is_text(list@[i].at("title"@), title),
        is_text(list@[i].at("class"@), class),
        is_int(list@[i].at("pid"@), pid as int),
    ensures
        ({
            let c = list@[i];
            let w = clients(Json::Arr(list))[i];
            &&& clients(Json::Arr(list)).len() == list@.len()
            &&& w.id == (IdView { native_id: address, de_type: DesktopEnvironment::Hyprland })
            &&& w.title == title
            &&& w.app_id == class
            &&& w.pid == pid
            &&& w.stacking_order == i as u32
            &&& w.keep_above <==> c.at("pinned"@) == Some(Json::Bool(true))
            &&& forall|n: u64| #[trigger]
                is_int(c.at("monitor"@), n as int) ==> w.monitor_id == Some(
                    IdView { native_id: dec(n as nat), de_type: DesktopEnvironment::Hyprland },
                )
            &&& c.at("workspace"@) matches Some(o) ==> forall|n: u64| #[trigger]
                is_int(o.at("id"@), n as int) ==> w.workspace_id == Some(
                    IdView { native_id: dec(n as nat), de_type: DesktopEnvironment::Hyprland },
                )
            &&& forall|t: Seq<char>| #[trigger]
                is_text(c.at("initialClass"@), t) ==> w.desktop_file == Some(t)
        }),
{
    law_address_is_the_identity(address);
}

/// A client lies at the first two numbers of its member `at`, and its size is the
/// first two numbers of its member `size`.
pub proof fn law_client_lies_where_it_says(
    c: Json,
    order: u32,
    place: Vec<Json>,
    size: Vec<Json>,
    g: Rect,
)
    requires
        c.at("at"@) == Some(Json::Arr(place)),
        c.at("size"@) == Some(Json::Arr(size)),
        place@.len() >= 2,
        size@.len() >= 2,
        is_int(Some(place@[0]), g.x as int),
        is_int(Some(place@[1]), g.y as int),
        is_int(Some(size@[0]), g.width as int),
        is_int(Some(size@[1]), g.height as int),
    ensures
        client(c, order).geometry == g,
        client(c, order).frame_geometry == g,
{
}

/// A client is fullscreen if and only if its mode is two or more, and hidden if and
/// only if it is not mapped.
pub proof fn law_client_states_tell_the_members(c: Json, order: u32)
    ensures
        client(c, order).states.contains(WindowState::Hidden) <==> c.at("mapped"@) == Some(
            Json::Bool(false),
        ),
        forall|n: int| #[trigger]
            is_int(c.at("fullscreen"@), n) && n <= i64::MAX ==> (client(
                c,
                order,
            ).states.contains(WindowState::FullScreen) <==> n >= 2),
        c.at("fullscreen"@) is None ==> !client(c, order).states.contains(WindowState::FullScreen),
        !client(c, order).states.contains(WindowState::Minimized),
        !client(c, order).states.contains(WindowState::Maximized),
        !client(c, order).states.contains(WindowState::Normal),
{
    let s = client_states(c);
    let full = c.int_of("fullscreen"@) matches Some(n) && n >= 2;
    assert(full ==> s[0] == WindowState::FullScreen);
    assert(c.at("mapped"@) == Some(Json::Bool(false)) ==> s[s.len() - 1] == WindowState::Hidden);
}

/// A workspace has the number and the name of its entry, and is active if and only if
/// the answer on the active workspace has the same number.
pub proof fn law_workspace_has_its_members(w: Json, n: u32, name: Seq<char>, active: Option<u64>)
    requires
        is_int(w.at("id"@), n as int),
        is_text(w.at("name"@), name),
    ensures
        ({
            let r = workspace_entry(w, active);
            &&& r.id == (IdView {
                native_id: dec(n as nat),
                de_type: DesktopEnvironment::Hyprland,
            })
            &&& r.name == name
            &&& r.number == n
            &&& r.is_active <==> active == Some(n as u64)
            &&& forall|m: u64| #[trigger]
                is_int(w.at("monitorID"@), m as int) ==> r.monitor_ids == seq![
                    IdView { native_id: dec(m as nat), de_type: DesktopEnvironment::Hyprland },
                ]
            &&& w.at("monitorID"@) is None ==> r.monitor_ids.len() == 0
        }),
{
}

/// A monitor has the number, the name, the rectangle and the scale of its entry, is
/// primary if and only if it is focused, and shows its active workspace.
pub proof fn law_monitor_has_its_members(m: Json, n: u64, name: Seq<char>, g: Rect)
    requires
        is_int(m.at("id"@), n as int),
        is_text(m.at("name"@), name),
        is_int(m.at("x"@), g.x as int),
        is_int(m.at("y"@), g.y as int),
        is_int(m.at("width"@), g.width as int),
        is_int(m.at("height"@), g.height as int),
    ensures
        ({
            let r = monitor_entry(m);
            &&& r.id == (IdView {
                native_id: dec(n as nat),
                de_type: DesktopEnvironment::Hyprland,
            })
            &&& r.name == name
            &&& r.geometry == g
            &&& r.physical_geometry == g
            &&& r.is_primary <==> m.at("focused"@) == Some(Json::Bool(true))
            &&& forall|k: int| #[trigger]
                is_int(m.at("scale"@), k) ==> r.scale == Some(dec_int(k))
            &&& m.at("activeWorkspace"@) matches Some(o) ==> forall|k: u64| #[trigger]
                is_int(o.at("id"@), k as int) ==> r.workspace_id == Some(
                    IdView { native_id: dec(k as nat), de_type: DesktopEnvironment::Hyprland },
                )
        }),
{
}

/// The topmost window is one of the windows, none lies higher, and of those that lie
/// as high it is the last one.
pub proof fn law_topmost_window_is_the_highest(ws: Seq<WindowView>)
    ensures
        match topmost(ws) {
            Some(w) => exists|i: int|
                0 <= i < ws.len() && #[trigger] ws[i] == w && (forall|k: int|
                    0 <= k < ws.len() ==> (#[trigger] ws[k]).stacking_order <= w.stacking_order) && (
                forall|k: int|
                    i < k < ws.len() ==> (#[trigger] ws[k]).stacking_order < w.stacking_order),
            None => ws.len() == 0,
        },
    decreases ws.len(),
{
    if ws.len() > 0 {
        let front = ws.drop_last();
        law_topmost_window_is_the_highest(front);
        let last = ws[ws.len() - 1];
        assert forall|k: int| 0 <= k < front.len() implies #[trigger] ws[k] == front[k] by {}
        match topmost(front) {
            None => {
                assert(ws[0] == last);
            },
            Some(w) => {
                let i = choose|i: int|
                    0 <= i < front.len() && #[trigger] front[i] == w && (forall|k: int|
                        0 <= k < front.len() ==> (#[trigger] front[k]).stacking_order
                            <= w.stacking_order) && (forall|k: int|
                        i < k < front.len() ==> (#[trigger] front[k]).stacking_order
                            < w.stacking_order);
                assert(ws[i] == w);
                if last.stacking_order >= w.stacking_order {
                    assert(ws[ws.len() - 1] == topmost(ws)->0);
                    assert forall|k: int| 0 <= k < ws.len() implies (
                    #[trigger] ws[k]).stacking_order <= last.stacking_order by {
                        if k < front.len() {
                            assert(front[k].stacking_order <= w.stacking_order);
                        }
                    }
                } else {
                    assert forall|k: int| 0 <= k < ws.len() implies (
                    #[trigger] ws[k]).stacking_order <= w.stacking_order by {
                        if k < front.len() {
                            assert(front[k].stacking_order <= w.stacking_order);
                        }
                    }
                    assert forall|k: int| i < k < ws.len() implies (
                    #[trigger] ws[k]).stacking_order < w.stacking_order by {
                        if k < front.len() {
                            assert(front[k].stacking_order < w.stacking_order);
                        }
                    }
                }
            },
        }
    }
}

// ---------------------------------------------------------------------------
// Requests
// ---------------------------------------------------------------------------
/// The actions name the window by its address, and the numbers in their order.
pub proof fn law_actions_say_what_is_done(verb: Seq<char>, a: int, b: int, address: Seq<char>)
    ensures
        float_action(address) == "setfloating address:0x"@ + address,
        exact_action(verb, a, b, address) == verb + " exact "@ + dec_int(a) + " "@ + dec_int(b)
            + ",address:0x"@ + address,
        at_address(address) == "address:0x"@ + address,
{
    reveal_strlit("setfloating ");
    reveal_strlit("address:0x");
    reveal_strlit("setfloating address:0x");
    reveal_strlit(",");
    reveal_strlit(",address:0x");
    assert("setfloating "@ + "address:0x"@ == "setfloating address:0x"@);
    assert(","@ + "address:0x"@ == ",address:0x"@);
}

/// An action was carried out if and only if the answer is "ok", in any case.
pub proof fn law_only_ok_is_a_yes(text: Seq<char>, what: Seq<char>)
    ensures
        accepted(text, what) is Ok <==> ({
            let t = trim(text);
            &&& t.len() == 2
            &&& (t[0] == 'o' || t[0] == 'O')
            &&& (t[1] == 'k' || t[1] == 'K')
        }),
{
    reveal_strlit("ok");
    let t = trim(text);
    let a = lower_all(t);
    let b = lower_all("ok"@);
    assert(b.len() == 2 && b[0] == 'o' && b[1] == 'k');
    if a == b {
        assert(a[0] == lower(t[0]));
        assert(a[1] == lower(t[1]));
    }
    if t.len() == 2 && (t[0] == 'o' || t[0] == 'O') && (t[1] == 'k' || t[1] == 'K') {
        assert(a[0] == b[0]);
        assert(a[1] == b[1]);
        assert(a =~= b);
    }
}

/// The sockets of a session lie below the runtime directory, in a directory with the
/// signature of the session.
pub proof fn law_sockets_lie_in_the_session(runtime: Seq<char>, his: Seq<char>)
    requires
        runtime.len() > 0,
        runtime.last() != '/',
        his.len() > 0,
        his[0] != '/',
    ensures
        session_dir(runtime, his) == runtime + "/hypr/"@ + his,
{
    reveal_strlit("hypr");
    reveal_strlit("/hypr/");
    law_paths_are_joined_by_a_slash(runtime, "hypr"@);
    let d = runtime + seq!['/'] + "hypr"@;
    assert(d.last() == 'r');
    law_paths_are_joined_by_a_slash(d, his);
    assert(d + seq!['/'] + his =~= runtime + "/hypr/"@ + his);
}

/// The windows of an answer are those of its clients, each identity once and the first of
/// several.
pub proof fn law_answer_lists_each_client_once(text: Seq<char>, v: Json, id: IdView)
    requires
        parsed(text) == Ok::<Json, Seq<char>>(v),
    ensures
        client_list(text) matches Ok(ws) && find_window(ws, id) == find_window(clients(v), id) && (
        forall|i: int, j: int|
            0 <= i < j < ws.len() ==> (#[trigger] ws[i]).id != (#[trigger] ws[j]).id),
{
    crate::hyprland::cache::law_deduplicated_is_distinct(clients(v), id);
}

/// An answer that is JSON is that value, and any other is an error.
pub proof fn law_answers_are_json(text: Seq<char>)
    ensures
        parsed(text) matches Ok(v) ==> answer_value(text) == Ok::<Json, ErrorView>(v),
        parsed(text) matches Err(e) ==> answer_value(text) == Err::<Json, ErrorView>(
            ErrorView::BackendUnavailable("hyprctl bad json: "@ + e),
        ) && client_list(text) is Err,
{
}

/// Each private protocol counts once where it is bound.
pub proof fn law_bound_protocols_are_counted(b: HyprlandBindings)
    ensures
        private_bound(None) == 0,
        private_bound(Some(b)) == b.bound(),
        b.bound() == 4 <==> b.toplevel_export && b.focus_grab && b.global_shortcuts
            && b.toplevel_mapping,
        b.bound() == 0 <==> !b.toplevel_export && !b.focus_grab && !b.global_shortcuts
            && !b.toplevel_mapping,
{
}

/// A failed binding is recorded under its name with its reason; one that succeeded is not.
pub proof fn law_failed_bindings_are_recorded(
    before: Seq<(Seq<char>, Seq<char>)>,
    name: Seq<char>,
    reason: String,
)
    ensures
        add_failure(before, name, Some(reason)) == before.push((name, reason@)),
        add_failure(before, name, None) == before,
{
}

/// The report names the session, what is bound, the time and the numbers of one round of
/// requests, and whether the event stream runs.
pub proof fn law_report_has_its_lines(
    signature: Seq<char>,
    wlr: WlrReport,
    b: Option<HyprlandBindings>,
    s: SocketReport,
    e: String,
)
    ensures
        session_line(signature) == "✓ Hyprland 会话  : HYPRLAND_INSTANCE_SIGNATURE="@ + signature,
        wlr.bound + private_bound(b) > 0 && protocol_names(wlr, b).len() > 0 ==> protocols_line(
            wlr,
            b,
        ) == "✓"@ + " Wayland 协议   : "@ + dec((wlr.bound + private_bound(b)) as nat)
            + "/11 globals bound ("@ + join(protocol_names(wlr, b), ", "@) + ")"@,
        wlr.bound == 0 && b is None && !wlr.foreign_toplevel && !wlr.virtual_pointer
            ==> protocols_line(wlr, b) == "⚠"@ + " Wayland 协议   : "@ + dec(0)
            + "/11 globals bound ("@ + "none"@ + ")"@,
        protocol_names(wlr, b).contains("foreign-toplevel v3"@) <==> wlr.foreign_toplevel,
        s.windows matches Some(n) ==> socket_line(Ok(s)) == "✓ hyprctl socket : OK (<"@ + s.millis@
            + "ms, "@ + dec(n as nat) + " windows, "@ + dec(s.monitors as nat) + " monitors, "@
            + dec(s.workspaces as nat) + " workspaces)"@,
        socket_line(Err(e)) == "⚠ hyprctl socket : "@ + e@,
        stream_line(true)
            == "✓ 事件流        : connected (openwindow, closewindow, activewindow, workspacev2)"@,
        stream_line(false)
            == "⚠ 事件流        : not started (lazy; daemon 事件归一化管线未装配，subscribe 未接线)"@,
{
    reveal_strlit("foreign-toplevel v3");
    reveal_strlit("virtual-pointer v2");
    reveal_strlit("hyprland-export v2");
    assert("foreign-toplevel v3"@.len() == 19);
    assert("virtual-pointer v2"@.len() == 18);
    assert("hyprland-export v2"@.len() == 18);
    let names = protocol_names(wlr, b);
    if wlr.foreign_toplevel {
        assert(names[0] == "foreign-toplevel v3"@);
    }
}

/// A window that is announced again without a title keeps the one that it had, and keeps
/// its place, its states and its process.
pub proof fn law_known_window_keeps_its_title(
    ws: Seq<WindowView>,
    address: Seq<char>,
    workspace: u32,
    class: Seq<char>,
    order: u32,
    i: int,
)
    requires
        0 <= i < ws.len(),
        ws[i].id == id_of_address(address),
        forall|j: int| 0 <= j < i ==> (#[trigger] ws[j]).id != id_of_address(address),
    ensures
        ({
            let after = upserted(ws, address, workspace, class, Seq::empty(), order);
            &&& after.len() == ws.len()
            &&& after[i].title == ws[i].title
            &&& after[i].app_id == class
            &&& after[i].states == ws[i].states
            &&& after[i].pid == ws[i].pid
            &&& after[i].geometry == ws[i].geometry
            &&& forall|j: int| 0 <= j < ws.len() && j != i ==> #[trigger] after[j] == ws[j]
        }),
{
    let id = id_of_address(address);
    lemma_window_position(ws, id);
    let k = window_position(ws, id);
    assert(k == i) by {
        if k < i {
            assert(ws[k].id != id);
        }
        if i < k {
            assert(ws[i].id != id);
        }
    }
}

/// A window that gets the focus and is not known is reported by its address alone: it has
/// no title, no class, no place and no states, and is not kept above.
pub proof fn law_unknown_window_is_reported_bare(ws: Seq<WindowView>, address: Seq<char>)
    requires
        find_window(ws, id_of_address(address)) is None,
    ensures
        ({
            let w = focus_window(ws, address);
            &&& w.id == id_of_address(address)
            &&& w.title.len() == 0 && w.app_id.len() == 0 && w.states.len() == 0
            &&& w.pid == 0 && w.stacking_order == 0
            &&& w.geometry == (Rect { x: 0, y: 0, width: 0, height: 0 })
            &&& w.frame_geometry == w.geometry
            &&& w.workspace_id is None && w.monitor_id is None && w.desktop_file is None
            &&& w.window_type == WindowType::Normal
            &&& w.icon_geometry is None && !w.keep_above
        }),
{
}

/// The event of a line is what stands in front of the first mark.
pub proof fn law_line_tells_of_its_event(name: Seq<char>, data: Seq<char>, other: Seq<char>)
    requires
        !name.contains('>'),
    ensures
        tells_of(name + ">>"@ + data, other) <==> other == name,
{
    lemma_line_is_cut(name, data);
}

/// A field that is missing or holds no number counts as zero, and one that holds a number
/// as that number.
#[verifier::spinoff_prover]
pub proof fn law_fields_hold_numbers(n: u32, s: Seq<char>)
    ensures
        field_number(None) == 0,
        field_number(Some(dec(n as nat))) == n,
        trim(s).len() == 0 ==> field_number(Some(s)) == 0,
{
    let t = dec(n as nat);
    assert(trim(t) == t) by {
        lemma_dec_is_number(n as nat);
        assert(is_digit(t[0]) && is_digit(t.last()));
        crate::text::law_visible_characters_are_not_white(t[0]);
        crate::text::law_visible_characters_are_not_white(t.last());
        crate::text::law_trimmed_text_has_no_white_ends(t);
    }
    assert(read_unsigned(t, u32::MAX as nat) == Some(n as nat)) by {
        law_read_unsigned_of_dec(n as nat, u32::MAX as nat);
    }
    if trim(s).len() == 0 {
        assert(unsigned_part(trim(s)).len() == 0);
        assert(read_unsigned(trim(s), u32::MAX as nat) is None);
    }
}

/// A window that is announced for the first time has what it was announced with, and
/// nothing else is known of it.
pub proof fn law_new_window_has_what_was_announced(
    ws: Seq<WindowView>,
    address: Seq<char>,
    workspace: u32,
    class: Seq<char>,
    title: Seq<char>,
    order: u32,
)
    requires
        forall|j: int| 0 <= j < ws.len() ==> (#[trigger] ws[j]).id != id_of_address(address),
    ensures
        ({
            let after = upserted(ws, address, workspace, class, title, order);
            let w = after.last();
            &&& after.len() == ws.len() + 1
            &&& after.drop_last() == ws
            &&& w.id == id_of_address(address) && w.title == title && w.app_id == class
            &&& w.stacking_order == order && w.pid == 0 && w.states.len() == 0
            &&& w.geometry == (Rect { x: 0, y: 0, width: 0, height: 0 })
            &&& w.frame_geometry == w.geometry
            &&& w.monitor_id is None && w.desktop_file is None && w.icon_geometry is None
            &&& w.window_type == WindowType::Normal && !w.keep_above
        }),
{
    let id = id_of_address(address);
    lemma_window_position(ws, id);
    let k = window_position(ws, id);
    if k < ws.len() {
        assert(ws[k].id != id);
    }
    assert(upserted(ws, address, workspace, class, title, order).drop_last() =~= ws);
}

} // verus!
