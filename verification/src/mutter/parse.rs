//! Windows as GNOME's scripts and the extension report them.

use vstd::prelude::*;

use crate::json::{low_u32, or_blank, or_empty, read_rect, rect_in, u32_or_zero, Json};
use crate::types::{
    lemma_views_push, opt_view, views, zero_rect, DesktopEnvironment, IdView, Rect, WindowId,
    WindowInfo, WindowState, WindowType, WindowView,
};

verus! {

/// The identity of a GNOME window.
pub open spec fn gnome_id(native_id: Seq<char>) -> IdView {
    IdView { native_id, de_type: DesktopEnvironment::GNOME }
}

/// The identifier of a reported window: a number or a text.
pub open spec fn reported_id(v: Json) -> Option<Seq<char>> {
    match v.at("id"@) {
        Some(Json::Number(n)) => Some(n.text()),
        Some(Json::Str(s)) => Some(s@),
        _ => None,
    }
}

/// `x` alone where the flag `key` is set.
pub open spec fn flagged(v: Json, key: Seq<char>, x: WindowState) -> Seq<WindowState> {
    if v.bool_of(key) == Some(true) {
        seq![x]
    } else {
        Seq::empty()
    }
}

/// The states of a reported window; one without any state is in the normal one.
pub open spec fn reported_states(v: Json) -> Seq<WindowState> {
    let found = flagged(v, "minimized"@, WindowState::Minimized) + flagged(
        v,
        "maximized"@,
        WindowState::Maximized,
    ) + flagged(v, "fullscreen"@, WindowState::FullScreen);
    if found.len() == 0 {
        seq![WindowState::Normal]
    } else {
        found
    }
}

/// The outer rectangle of a reported window: where none is given, the inner one.
pub open spec fn reported_frame(v: Json) -> Rect {
    let content = rect_in(v.at("geometry"@));
    let frame = rect_in(v.at("frameGeometry"@));
    if frame == zero_rect() {
        content
    } else {
        frame
    }
}

/// The window that a report describes; a report without an identifier describes
/// none.
pub open spec fn reported_window(v: Json, stacking_order: u32) -> Option<WindowView> {
    match reported_id(v) {
        None => None,
        Some(id) => Some(
            WindowView {
                id: gnome_id(id),
                title: or_empty(v.str_of("title"@)),
                app_id: or_empty(v.str_of("appId"@)),
                pid: low_u32(v.uint_of("pid"@)),
                geometry: rect_in(v.at("geometry"@)),
                frame_geometry: reported_frame(v),
                states: reported_states(v),
                workspace_id: None,
                monitor_id: None,
                stacking_order,
                desktop_file: None,
                window_type: WindowType::Unknown,
                icon_geometry: None,
                keep_above: false,
            },
        ),
    }
}

/// The windows of a list of reports, each with its place in that list as its
/// stacking order.
pub open spec fn reported_windows(items: Seq<Json>) -> Seq<WindowView>
    decreases items.len(),
{
    if items.len() == 0 {
        Seq::empty()
    } else {
        let front = reported_windows(items.drop_last());
        match reported_window(items.last(), (items.len() - 1) as u32) {
            Some(w) => front.push(w),
            None => front,
        }
    }
}

fn states_of(v: &Json) -> (r: Vec<WindowState>)
    ensures
        r@ == reported_states(*v),
{
    let mut states: Vec<WindowState> = Vec::new();
    if let Some(true) = v.get_bool("minimized") {
        states.push(WindowState::Minimized);
    }
    if let Some(true) = v.get_bool("maximized") {
        states.push(WindowState::Maximized);
    }
    if let Some(true) = v.get_bool("fullscreen") {
        states.push(WindowState::FullScreen);
    }
    assert(states@ =~= flagged(*v, "minimized"@, WindowState::Minimized) + flagged(
        *v,
        "maximized"@,
        WindowState::Maximized,
    ) + flagged(*v, "fullscreen"@, WindowState::FullScreen));
    if states.len() == 0 {
        states.push(WindowState::Normal);
        assert(states@ =~= seq![WindowState::Normal]);
    }
    states
}

/// The window that a report describes.
pub fn window(v: &Json, stacking_order: u32) -> (r: Option<WindowInfo>)
    ensures
        opt_view(r) == reported_window(*v, stacking_order),
{
    let native_id = match v.get("id") {
        Some(Json::Number(n)) => n.to_text(),
        Some(Json::Str(s)) => s.clone(),
        _ => return None,
    };
    let geometry = read_rect(v.get("geometry"));
    let frame = read_rect(v.get("frameGeometry"));
    let frame_geometry = if frame == (Rect { x: 0, y: 0, width: 0, height: 0 }) {
        geometry
    } else {
        frame
    };
    Some(
        WindowInfo {
            id: WindowId { native_id, de_type: DesktopEnvironment::GNOME },
            title: or_blank(v.get_str("title")),
            app_id: or_blank(v.get_str("appId")),
            pid: u32_or_zero(v.get_u64("pid")),
            geometry,
            frame_geometry,
            states: states_of(v),
            workspace_id: None,
            monitor_id: None,
            stacking_order,
            desktop_file: None,
            window_type: WindowType::Unknown,
            icon_geometry: None,
            keep_above: false,
        },
    )
}

/// The items of an array; anything else has none.
pub open spec fn items_or_none(v: Json) -> Seq<Json> {
    match v.items() {
        Some(a) => a,
        None => Seq::empty(),
    }
}

/// The windows of a list of reports.
pub fn windows(v: &Json) -> (r: Vec<WindowInfo>)
    ensures
        views(r@) == reported_windows(items_or_none(*v)),
{
    broadcast use lemma_views_push;

    let mut out: Vec<WindowInfo> = Vec::new();
    let all = match v.as_array() {
        Some(a) => a,
        None => {
            assert(views(out@) =~= Seq::<WindowView>::empty());
            return out;
        },
    };
    let mut i: usize = 0;
    assert(views(out@) =~= Seq::<WindowView>::empty());
    while i < all.len()
        invariant
            i <= all.len(),
            views(out@) == reported_windows(all@.take(i as int)),
        decreases all.len() - i,
    {
        let ghost now = all@.take(i as int + 1);
        assert(now.drop_last() =~= all@.take(i as int));
        let order: u32 = #[verifier::truncate] (i as u32);
        if let Some(w) = window(&all[i], order) {
            out.push(w);
        }
        i = i + 1;
    }
    assert(all@.take(i as int) =~= all@);
    out
}

/// The first report that has the focus.
pub open spec fn first_focused(items: Seq<Json>) -> Option<Json>
    decreases items.len(),
{
    if items.len() == 0 {
        None
    } else if items[0].bool_of("hasFocus"@) == Some(true) {
        Some(items[0])
    } else {
        first_focused(items.skip(1))
    }
}

/// The window of the first report that has the focus.
pub open spec fn focused_window(items: Seq<Json>) -> Option<WindowView> {
    match first_focused(items) {
        Some(v) => reported_window(v, 0),
        None => None,
    }
}

/// The window that has the focus.
pub fn focused(v: &Json) -> (r: Option<WindowInfo>)
    ensures
        opt_view(r) == focused_window(items_or_none(*v)),
{
    let all = match v.as_array() {
        Some(a) => a,
        None => return None,
    };
    let mut i: usize = 0;
    assert(all@.skip(0) =~= all@);
    while i < all.len()
        invariant
            i <= all.len(),
            first_focused(all@) == first_focused(all@.skip(i as int)),
            items_or_none(*v) == all@,
        decreases all.len() - i,
    {
        if let Some(true) = all[i].get_bool("hasFocus") {
            return window(&all[i], 0);
        }
        assert(all@.skip(i as int).skip(1) =~= all@.skip(i as int + 1));
        i = i + 1;
    }
    None
}

} // verus!
