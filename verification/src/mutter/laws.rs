//! What holds of GNOME's monitors, windows, scripts and signals, stated on the
//! fields of what GNOME reports and on the fields of what becomes of it.

use vstd::prelude::*;
use vstd::utf8::*;

use crate::json::{is_int, is_text, parsed, Json};
use crate::mutter::compositor::{
    display_name, missing_reason, move_request, next_step, op_request, op_script, Channel,
    GnomePath, Missing, MutterView, OpKind, RequestView, SessionKind, StepView,
};
use crate::mutter::display_config::{
    at_connector, connectors_in, current_mode, layout_in, logical_in, logicals_in, marked,
    marked_mode, mode_in, mode_size, modes_in, monitor_of, physical_in, region_size,
    region_sizes, ApplyMethod, BusValue, LayoutView, LogicalView, ModeView, PhysicalView, StateReply,
};
use crate::mutter::error::MutterErrorView;
use crate::mutter::eval::{eval_value, rejected_id, EvalReply};
use crate::mutter::extension::{
    active, event_of, extension_probe, listed, BusMessage, IntrospectReply, SignalBody,
};
use crate::mutter::install::{
    all_quoted, candidate_dirs, covers, dconf_text, first_present, quoted, run_text,
    running_major, strings_in, switched_on, user_dir, DirState, DirView, RunOutcome,
};
use crate::mutter::parse::{
    first_focused, focused_window, items_or_none, reported_states, reported_window,
    reported_windows,
};
use crate::mutter::version::{
    detected, shell_version, GnomeMajor, GnomeVersion, GnomeVersionView, VersionReading,
};
use crate::text::{
    dec, is_number, join, law_paths_are_joined_by_a_slash, leading_number, path_join, trim,
};
use crate::wayland_core::WaylandDisplayServer;
use crate::types::{
    DesktopEnvironment, ErrorView, EventSource, EventView, IdView, Rect, WindowState, WindowView,
};

verus! {

// ---------------------------------------------------------------------------
// Regions
// ---------------------------------------------------------------------------
/// A structure with six fields or more stands for a region, in the order of the list.
proof fn lemma_nth_region(items: Seq<BusValue>, i: int)
    requires
        0 <= i < items.len(),
        logical_in(items[i]) is Some,
    ensures
        logicals_in(items.take(i)).len() < logicals_in(items).len(),
        logicals_in(items)[logicals_in(items.take(i)).len() as int] == logical_in(items[i])->0,
        logicals_in(items.take(i)).len() <= i,
        (forall|k: int| 0 <= k < i ==> logical_in(#[trigger] items[k]) is Some) ==> logicals_in(
            items.take(i),
        ).len() == i,
    decreases items.len(),
{
    lemma_region_count(items.take(i));
    if (forall|k: int| 0 <= k < i ==> logical_in(#[trigger] items[k]) is Some) {
        assert forall|k: int| 0 <= k < items.take(i).len() implies logical_in(
            #[trigger] items.take(i)[k],
        ) is Some by {
            assert(items.take(i)[k] == items[k]);
        }
    }
    if i == items.len() - 1 {
        assert(items.drop_last() == items.take(i));
    } else {
        assert(items.drop_last().take(i) == items.take(i));
        assert(items.drop_last()[i] == items[i]);
        lemma_nth_region(items.drop_last(), i);
    }
}

proof fn lemma_region_count(items: Seq<BusValue>)
    ensures
        logicals_in(items).len() <= items.len(),
        (forall|k: int| 0 <= k < items.len() ==> logical_in(#[trigger] items[k]) is Some)
            ==> logicals_in(items).len() == items.len(),
    decreases items.len(),
{
    if items.len() > 0 {
        lemma_region_count(items.drop_last());
        if (forall|k: int| 0 <= k < items.len() ==> logical_in(#[trigger] items[k]) is Some) {
            assert forall|k: int| 0 <= k < items.drop_last().len() implies logical_in(
                #[trigger] items.drop_last()[k],
            ) is Some by {
                assert(items.drop_last()[k] == items[k]);
            }
            assert(logical_in(items[items.len() - 1]) is Some);
        }
    }
}

/// A region lies where the first two fields of its structure say: the first one is
/// how far it is from the left, the second how far from the top. The monitor listed
/// for it lies there too. The scale, the transformation and whether it is the
/// primary one are the third, the fourth and the fifth field.
pub proof fn law_region_lies_where_its_fields_say(
    serial: u32,
    monitors: Vec<BusValue>,
    regions: Vec<BusValue>,
    i: int,
    f: Vec<BusValue>,
    a: i32,
    b: i32,
    scaled: (i32, i32),
) -> (k: int)
    requires
        0 <= i < regions@.len(),
        regions@[i] == BusValue::Struct(f),
        f@.len() >= 6,
        f@[0] == BusValue::Int(a),
        f@[1] == BusValue::Int(b),
    ensures
        layout_in(StateReply::State(serial, monitors, regions)) matches Ok(l) && {
            let region = l.logical_monitors[k];
            let monitor = monitor_of(l, k, scaled);
            &&& l.serial == serial
            &&& 0 <= k <= i
            &&& k < l.logical_monitors.len()
            &&& region.x == a
            &&& region.y == b
            &&& monitor.geometry.x == a
            &&& monitor.geometry.y == b
            &&& monitor.physical_geometry.x == a
            &&& monitor.physical_geometry.y == b
            &&& monitor.geometry.width == scaled.0
            &&& monitor.geometry.height == scaled.1
            &&& f@[2] matches BusValue::Fraction(t) ==> region.scale == Some(t@) && monitor.scale
                == Some(t@)
            &&& f@[3] matches BusValue::Uint(t) ==> region.transform == t
            &&& f@[4] == BusValue::Bool(true) <==> region.primary
            &&& f@[4] == BusValue::Bool(true) <==> monitor.is_primary
            &&& (forall|j: int|
                0 <= j < i ==> ((#[trigger] regions@[j]) matches BusValue::Struct(g) && g@.len()
                    >= 6)) ==> k == i
        },
{
    let items = regions@;
    lemma_nth_region(items, i);
    if (forall|j: int|
        0 <= j < i ==> ((#[trigger] regions@[j]) matches BusValue::Struct(g) && g@.len() >= 6)) {
        assert forall|j: int| 0 <= j < i implies logical_in(#[trigger] items[j]) is Some by {}
    }
    logicals_in(items.take(i)).len() as int
}

/// The connectors of a region are the first fields of the structures in its sixth
/// field, and the monitor listed for it goes by the first of them.
pub proof fn law_region_names_its_connectors(
    region: LogicalView,
    f: Vec<BusValue>,
    list: Vec<BusValue>,
    names: Seq<Seq<char>>,
    l: LayoutView,
    k: int,
    scaled: (i32, i32),
)
    requires
        logical_in(BusValue::Struct(f)) == Some(region),
        f@[5] == BusValue::Array(list),
        list@.len() == names.len(),
        forall|j: int|
            0 <= j < list@.len() ==> ((#[trigger] list@[j]) matches BusValue::Struct(g) && g@.len()
                > 0 && (g@[0] matches BusValue::Text(t) && t@ == names[j])),
        0 <= k < l.logical_monitors.len(),
        l.logical_monitors[k] == region,
    ensures
        region.connectors == names,
        names.len() > 0 ==> monitor_of(l, k, scaled).name == names[0] && monitor_of(
            l,
            k,
            scaled,
        ).id == (IdView { native_id: names[0], de_type: DesktopEnvironment::GNOME }),
        names.len() == 0 ==> monitor_of(l, k, scaled).id.native_id == "logical-"@ + dec(k as nat),
{
    lemma_connectors(list@, names);
}

proof fn lemma_connectors(list: Seq<BusValue>, names: Seq<Seq<char>>)
    requires
        list.len() == names.len(),
        forall|j: int|
            0 <= j < list.len() ==> ((#[trigger] list[j]) matches BusValue::Struct(g) && g@.len()
                > 0 && (g@[0] matches BusValue::Text(t) && t@ == names[j])),
    ensures
        connectors_in(list) == names,
    decreases list.len(),
{
    if list.len() > 0 {
        let front = list.drop_last();
        let rest = names.drop_last();
        assert forall|j: int| 0 <= j < front.len() implies ((#[trigger] front[j]) matches
            BusValue::Struct(g) && g@.len() > 0 && (g@[0] matches BusValue::Text(t) && t@
            == rest[j])) by {
            assert(front[j] == list[j]);
        }
        lemma_connectors(front, rest);
        assert(list[list.len() - 1] == list.last());
        assert(connectors_in(list) =~= names);
    }
}

// ---------------------------------------------------------------------------
// Monitors and modes
// ---------------------------------------------------------------------------
/// A mode has the name, the width, the height and the refresh rate in its first four
/// fields.
pub proof fn law_mode_has_its_fields(f: Vec<BusValue>, id: String, w: i32, h: i32)
    requires
        f@.len() >= 6,
        f@[0] == BusValue::Text(id),
        f@[1] == BusValue::Int(w),
        f@[2] == BusValue::Int(h),
    ensures
        mode_in(BusValue::Struct(f)) matches Some(m) && m.id == id@ && m.width == w && m.height == h
            && (f@[3] matches BusValue::Fraction(t) ==> m.refresh == Some(t@)),
{
}

/// A monitor has the connector, the vendor, the product and the serial number that
/// are named first, and the modes that are listed behind them.
pub proof fn law_monitor_has_its_names(
    f: Vec<BusValue>,
    n: Vec<BusValue>,
    connector: String,
    vendor: String,
    product: String,
    serial: String,
    modes: Vec<BusValue>,
)
    requires
        n@.len() >= 4,
        n@[0] == BusValue::Text(connector),
        n@[1] == BusValue::Text(vendor),
        n@[2] == BusValue::Text(product),
        n@[3] == BusValue::Text(serial),
        (3 <= f@.len() < 6 && f@[0] == BusValue::Struct(n) && f@[1] == BusValue::Array(modes)) || (
        f == n && f@.len() >= 6 && f@[4] == BusValue::Array(modes)),
    ensures
        physical_in(BusValue::Struct(f)) matches Some(m) && m.connector == connector@ && m.vendor
            == vendor@ && m.product == product@ && m.serial == serial@ && m.modes == modes_in(
            modes@,
        ) && m.current_mode == current_mode(modes@),
{
}

/// Whether the properties of a mode, the last of its fields, mark it as the current
/// one.
pub open spec fn says_current(f: Seq<BusValue>) -> bool {
    exists|p: Vec<(BusValue, BusValue)>, i: int|
        {
            &&& 0 <= i < p@.len()
            &&& (#[trigger] p@[i]).1 == BusValue::Bool(true)
            &&& (p@[i].0 matches BusValue::Text(key) && key@ == "is-current"@)
            &&& (f[5] == BusValue::Dict(p) || (f.len() > 6 && f[6] == BusValue::Dict(p)))
        }
}

proof fn lemma_says_current(f: Seq<BusValue>)
    requires
        f.len() >= 6,
    ensures
        says_current(f) <==> marked(f),
{
    if marked(f) {
        let v = if f[5].is_current() {
            f[5]
        } else {
            f[6]
        };
        if let BusValue::Dict(p) = v {
            let i = choose|i: int|
                0 <= i < p@.len() && (#[trigger] p@[i]).0.text() == "is-current"@ && p@[i].0 is Text
                    && p@[i].1.holds();
            assert(p@[i].1 == BusValue::Bool(true));
        }
    }
    if says_current(f) {
        let (p, i) = choose|p: Vec<(BusValue, BusValue)>, i: int|
            {
                &&& 0 <= i < p@.len()
                &&& (#[trigger] p@[i]).1 == BusValue::Bool(true)
                &&& (p@[i].0 matches BusValue::Text(key) && key@ == "is-current"@)
                &&& (f[5] == BusValue::Dict(p) || (f.len() > 6 && f[6] == BusValue::Dict(p)))
            };
        assert(p@[i].0.text() == "is-current"@);
        if f[5] == BusValue::Dict(p) {
            assert(f[5].is_current());
        } else {
            assert(f[6].is_current());
        }
    }
}

/// The current mode is the first one that is marked as current, whatever its place.
pub proof fn law_marked_mode_is_the_current_one(
    items: Seq<BusValue>,
    i: int,
    f: Vec<BusValue>,
    id: String,
)
    requires
        0 <= i < items.len(),
        items[i] == BusValue::Struct(f),
        f@.len() >= 6,
        f@[0] == BusValue::Text(id),
        says_current(f@),
        forall|k: int|
            0 <= k < i ==> ((#[trigger] items[k]) matches BusValue::Struct(g) ==> (g@.len() >= 6
                ==> !says_current(g@))),
    ensures
        current_mode(items) == Some(id@),
    decreases items.len(),
{
    lemma_says_current(f@);
    lemma_unmarked(items.take(i));
    lemma_marked_at(items, i, f@);
}

proof fn lemma_unmarked(items: Seq<BusValue>)
    requires
        forall|k: int|
            0 <= k < items.len() ==> ((#[trigger] items[k]) matches BusValue::Struct(g) ==> (
            g@.len() >= 6 ==> !says_current(g@))),
    ensures
        marked_mode(items) is None,
    decreases items.len(),
{
    if items.len() > 0 {
        let front = items.drop_last();
        assert forall|k: int| 0 <= k < front.len() implies ((#[trigger] front[k]) matches
            BusValue::Struct(g) ==> (g@.len() >= 6 ==> !says_current(g@))) by {
            assert(front[k] == items[k]);
        }
        lemma_unmarked(front);
        let last = items[items.len() - 1];
        if let BusValue::Struct(g) = last {
            if g@.len() >= 6 {
                lemma_says_current(g@);
            }
        }
    }
}

proof fn lemma_marked_at(items: Seq<BusValue>, i: int, f: Seq<BusValue>)
    requires
        0 <= i < items.len(),
        items[i].record() == Some(f),
        marked(f),
        marked_mode(items.take(i)) is None,
    ensures
        marked_mode(items) == Some(f[0].text()),
    decreases items.len(),
{
    if i == items.len() - 1 {
        assert(items.drop_last() == items.take(i));
    } else {
        assert(items.drop_last().take(i) == items.take(i));
        assert(items.drop_last()[i] == items[i]);
        lemma_marked_at(items.drop_last(), i, f);
    }
}

/// A region is as large, in pixels, as the mode that its first monitor runs in: the
/// width first, then the height.
pub proof fn law_region_has_the_size_of_its_mode(
    monitors: Seq<PhysicalView>,
    region: LogicalView,
    m: int,
    i: int,
)
    requires
        region.connectors.len() > 0,
        0 <= m < monitors.len(),
        monitors[m].connector == region.connectors[0],
        forall|k: int| 0 <= k < m ==> (#[trigger] monitors[k]).connector != region.connectors[0],
        0 <= i < monitors[m].modes.len(),
        monitors[m].current_mode == Some(monitors[m].modes[i].id),
        forall|k: int|
            0 <= k < i ==> (#[trigger] monitors[m].modes[k]).id != monitors[m].modes[i].id,
    ensures
        region_size(monitors, region) == (
            monitors[m].modes[i].width,
            monitors[m].modes[i].height,
        ),
{
    lemma_at_connector(monitors, region.connectors[0], m);
    lemma_mode_size(monitors[m].modes, i);
}

proof fn lemma_at_connector(monitors: Seq<PhysicalView>, c: Seq<char>, m: int)
    requires
        0 <= m < monitors.len(),
        monitors[m].connector == c,
        forall|k: int| 0 <= k < m ==> (#[trigger] monitors[k]).connector != c,
    ensures
        at_connector(monitors, c) == Some(monitors[m]),
    decreases m,
{
    if m > 0 {
        assert(monitors[0].connector != c);
        assert forall|k: int| 0 <= k < m - 1 implies (#[trigger] monitors.skip(1)[k]).connector
            != c by {
            assert(monitors.skip(1)[k] == monitors[k + 1]);
        }
        lemma_at_connector(monitors.skip(1), c, m - 1);
    }
}

proof fn lemma_mode_size(modes: Seq<ModeView>, i: int)
    requires
        0 <= i < modes.len(),
        forall|k: int| 0 <= k < i ==> (#[trigger] modes[k]).id != modes[i].id,
    ensures
        mode_size(modes, modes[i].id) == Some((modes[i].width, modes[i].height)),
    decreases i,
{
    if i > 0 {
        assert(modes[0].id != modes[i].id);
        assert forall|k: int| 0 <= k < i - 1 implies (#[trigger] modes.skip(1)[k]).id
            != modes.skip(1)[i - 1].id by {
            assert(modes.skip(1)[k] == modes[k + 1]);
        }
        lemma_mode_size(modes.skip(1), i - 1);
    }
}

// ---------------------------------------------------------------------------
// Windows
// ---------------------------------------------------------------------------
/// A window has the identifier, the title, the application, the process and the
/// rectangles of its report.
pub proof fn law_window_has_the_members(v: Json, order: u32, id: u64, title: Seq<char>, app: Seq<char>, pid: u32)
    requires
        is_int(v.at("id"@), id as int),
        is_text(v.at("title"@), title),
        is_text(v.at("appId"@), app),
        is_int(v.at("pid"@), pid as int),
    ensures
        reported_window(v, order) matches Some(w) && {
            &&& w.id == (IdView { native_id: dec(id as nat), de_type: DesktopEnvironment::GNOME })
            &&& w.title == title
            &&& w.app_id == app
            &&& w.pid == pid
            &&& w.stacking_order == order
            &&& w.states == reported_states(v)
        },
{
}

/// A report goes by its identifier, a number or a text; without one it is no window.
pub proof fn law_window_goes_by_its_identifier(v: Json, order: u32, t: Seq<char>)
    ensures
        is_text(v.at("id"@), t) ==> (reported_window(v, order) matches Some(w) && w.id.native_id
            == t),
        v.at("id"@) is None ==> reported_window(v, order) is None,
{
}

/// A window is minimised, maximised or fullscreen if and only if its report says so,
/// and counts as normal if and only if it is none of these.
pub proof fn law_states_tell_the_flags(v: Json)
    ensures
        reported_states(v).contains(WindowState::Minimized) <==> v.at("minimized"@) == Some(
            Json::Bool(true),
        ),
        reported_states(v).contains(WindowState::Maximized) <==> v.at("maximized"@) == Some(
            Json::Bool(true),
        ),
        reported_states(v).contains(WindowState::FullScreen) <==> v.at("fullscreen"@) == Some(
            Json::Bool(true),
        ),
        reported_states(v).contains(WindowState::Normal) <==> (v.at("minimized"@) != Some(
            Json::Bool(true),
        ) && v.at("maximized"@) != Some(Json::Bool(true)) && v.at("fullscreen"@) != Some(
            Json::Bool(true),
        )),
        !reported_states(v).contains(WindowState::Hidden),
{
    let a = v.at("minimized"@) == Some(Json::Bool(true));
    let b = v.at("maximized"@) == Some(Json::Bool(true));
    let c = v.at("fullscreen"@) == Some(Json::Bool(true));
    let s = reported_states(v);
    let na: int = if a {
        1
    } else {
        0
    };
    let nb: int = if b {
        1
    } else {
        0
    };
    assert(a ==> s[0] == WindowState::Minimized);
    assert(b ==> s[na] == WindowState::Maximized);
    assert(c ==> s[na + nb] == WindowState::FullScreen);
    assert(!a && !b && !c ==> s[0] == WindowState::Normal);
}

/// A window lies where its report says; without an outer rectangle of its own, the
/// outer rectangle is the inner one.
pub proof fn law_window_lies_where_reported(v: Json, order: u32, w: WindowView, j: Json, g: Rect)
    requires
        reported_window(v, order) == Some(w),
        is_int(j.at("x"@), g.x as int),
        is_int(j.at("y"@), g.y as int),
        is_int(j.at("width"@), g.width as int),
        is_int(j.at("height"@), g.height as int),
    ensures
        v.at("geometry"@) == Some(j) ==> w.geometry == g,
        v.at("frameGeometry"@) == Some(j) && g != (Rect { x: 0, y: 0, width: 0, height: 0 })
            ==> w.frame_geometry == g,
        v.at("frameGeometry"@) is None ==> w.frame_geometry == w.geometry,
{
}

/// The window of a report is at its place in the list, which also tells how it is
/// stacked.
pub proof fn law_windows_are_listed_in_order(items: Seq<Json>, i: int)
    requires
        0 <= i < items.len(),
        forall|k: int| 0 <= k < items.len() ==> reported_window(#[trigger] items[k], 0) is Some,
    ensures
        reported_windows(items).len() == items.len(),
        Some(reported_windows(items)[i]) == reported_window(items[i], i as u32),
    decreases items.len(),
{
    let front = items.drop_last();
    assert forall|k: int| 0 <= k < front.len() implies reported_window(
        #[trigger] front[k],
        0,
    ) is Some by {
        assert(front[k] == items[k]);
    }
    assert(reported_window(items[items.len() - 1], 0) is Some);
    if i < front.len() {
        law_windows_are_listed_in_order(front, i);
    } else if front.len() > 0 {
        law_windows_are_listed_in_order(front, 0);
    } else {
        assert(reported_windows(front).len() == 0);
    }
}

/// The window with the focus is the first one whose report says that it has it.
pub proof fn law_focused_window_is_the_reported_one(items: Seq<Json>, i: int)
    requires
        0 <= i < items.len(),
        items[i].at("hasFocus"@) == Some(Json::Bool(true)),
        forall|k: int|
            0 <= k < i ==> (#[trigger] items[k]).at("hasFocus"@) != Some(Json::Bool(true)),
    ensures
        focused_window(items) == reported_window(items[i], 0),
{
    lemma_first_focused(items, i);
}

proof fn lemma_first_focused(items: Seq<Json>, i: int)
    requires
        0 <= i < items.len(),
        items[i].at("hasFocus"@) == Some(Json::Bool(true)),
        forall|k: int|
            0 <= k < i ==> (#[trigger] items[k]).at("hasFocus"@) != Some(Json::Bool(true)),
    ensures
        first_focused(items) == Some(items[i]),
    decreases i,
{
    if i > 0 {
        assert(items[0].at("hasFocus"@) != Some(Json::Bool(true)));
        assert forall|k: int| 0 <= k < i - 1 implies (#[trigger] items.skip(1)[k]).at("hasFocus"@)
            != Some(Json::Bool(true)) by {
            assert(items.skip(1)[k] == items[k + 1]);
        }
        lemma_first_focused(items.skip(1), i - 1);
    }
}

/// Where no report says that it has the focus, no window has it.
pub proof fn law_no_focus_means_no_window(items: Seq<Json>)
    requires
        forall|k: int|
            0 <= k < items.len() ==> (#[trigger] items[k]).at("hasFocus"@) != Some(
                Json::Bool(true),
            ),
    ensures
        focused_window(items) is None,
    decreases items.len(),
{
    if items.len() > 0 {
        assert(items[0].at("hasFocus"@) != Some(Json::Bool(true)));
        assert forall|k: int| 0 <= k < items.skip(1).len() implies (#[trigger] items.skip(1)[k]).at(
            "hasFocus"@,
        ) != Some(Json::Bool(true)) by {
            assert(items.skip(1)[k] == items[k + 1]);
        }
        law_no_focus_means_no_window(items.skip(1));
    }
}

// ---------------------------------------------------------------------------
// Requests
// ---------------------------------------------------------------------------
/// The scripts for a window, in full: minimising assigns true and restoring assigns
/// false; maximising names both directions and taking it back names none.
pub proof fn law_scripts_say_what_is_done(id: Seq<char>)
    requires
        is_number(id),
    ensures
        op_script(id, OpKind::Focus) == Ok::<Seq<char>, MutterErrorView>(
            "(function() {\n\
    \x20                   let a = global.get_window_actors()\n\
    \x20                       .find(a => a.meta_window.get_id() == "@
                + id + ");\n\
    \x20                   if (!a) return 'false';\n\
    \x20                   a.meta_window.activate(global.get_current_time());\n\
    \x20                   return 'true';\n\
    \x20               })()"@,
        ),
        op_script(id, OpKind::Close) == Ok::<Seq<char>, MutterErrorView>(
            "(global.get_window_actors().find(a => a.meta_window.get_id() == "@ + id + ")\n\
    \x20             ?.meta_window.delete(), null)"@,
        ),
        op_script(id, OpKind::Minimize(true)) == Ok::<Seq<char>, MutterErrorView>(
            "(global.get_window_actors().find(a => a.meta_window.get_id() == "@ + id + (
            ")\n\
    \x20             ?.meta_window.minimized = "@ + "true"@ + ", null)"@),
        ),
        op_script(id, OpKind::Minimize(false)) == Ok::<Seq<char>, MutterErrorView>(
            "(global.get_window_actors().find(a => a.meta_window.get_id() == "@ + id + (
            ")\n\
    \x20             ?.meta_window.minimized = "@ + "false"@ + ", null)"@),
        ),
        op_script(id, OpKind::Maximize(true)) == Ok::<Seq<char>, MutterErrorView>(
            "(global.get_window_actors().find(a => a.meta_window.get_id() == "@ + id + (
            ")\n\
    \x20             ?.meta_window.maximize("@ + "Meta.MaximizeFlags.BOTH"@ + "), null)"@),
        ),
        op_script(id, OpKind::Maximize(false)) == Ok::<Seq<char>, MutterErrorView>(
            "(global.get_window_actors().find(a => a.meta_window.get_id() == "@ + id + (
            ")\n\
    \x20             ?.meta_window.maximize("@ + "0"@ + "), null)"@),
        ),
{
}

/// An identifier that is no number gets into no request.
pub proof fn law_only_numbers_are_asked_for(path: GnomePath, id: Seq<char>, op: OpKind, x: i32, y: i32)
    requires
        !is_number(id),
        id.len() > 0 ==> id[0] != '+',
    ensures
        op_request(path, id, op) is Err,
        move_request(path, id, x, y) is Err,
{
}

/// The extension is asked for the window with the number, for the very operation,
/// and for the very place.
pub proof fn law_extension_is_asked_for_the_window(path: GnomePath, n: u32, op: OpKind, x: i32, y: i32)
    requires
        path is Extension,
    ensures
        op_request(path, dec(n as nat), op) == Ok::<RequestView, ErrorView>(
            RequestView::Call(n as nat, op),
        ),
        move_request(path, dec(n as nat), x, y) == Ok::<RequestView, ErrorView>(
            RequestView::Move(n as nat, x, y),
        ),
{
    crate::mutter::extension::law_reported_id_is_accepted(n);
}

/// Where scripts are evaluated, windows cannot be moved.
pub proof fn law_scripts_do_not_move(path: GnomePath, id: Seq<char>, x: i32, y: i32)
    requires
        path is Eval,
    ensures
        move_request(path, id, x, y) == Err::<RequestView, ErrorView>(
            ErrorView::NotImplemented("mutter: window move unavailable on Eval path"@),
        ),
{
}

/// Before GNOME 47 scripts are tried first, from then on the extension; the other one
/// follows where the first does not work.
pub proof fn law_channels_are_tried_by_version(e: MutterErrorView)
    ensures
        next_step(GnomeMajor::Pre47, None, None) == StepView::Probe(Channel::Eval),
        next_step(GnomeMajor::V47Plus, None, None) == StepView::Probe(Channel::Extension),
        next_step(GnomeMajor::Pre47, Some(Err(e)), None) == StepView::Probe(Channel::Extension),
        next_step(GnomeMajor::V47Plus, None, Some(Err(e))) == StepView::Probe(Channel::Eval),
        next_step(GnomeMajor::Pre47, Some(Ok(())), None) == StepView::Use(Channel::Eval),
        next_step(GnomeMajor::V47Plus, None, Some(Ok(()))) == StepView::Use(Channel::Extension),
{
}

/// A version counts as 47 or later if and only if the number in front of its first
/// dot is 47 or more. White space is no part of it.
pub proof fn law_version_goes_by_its_first_number(n: u32, rest: Seq<char>)
    requires
        rest.len() == 0 || rest[0] == '.',
        forall|i: int| 0 <= i < rest.len() ==> !crate::text::is_white(#[trigger] rest[i]),
    ensures
        shell_version(dec(n as nat) + rest) matches Some(v) && v.full == dec(n as nat) + rest && (
        v.major == GnomeMajor::V47Plus <==> n >= 47),
{
    let head = dec(n as nat);
    let s = head + rest;
    crate::text::lemma_dec_is_number(n as nat);
    crate::text::law_number_of_dec(n as nat);
    crate::text::law_read_unsigned_of_dec(n as nat, u32::MAX as nat);
    assert forall|i: int| 0 <= i < s.len() implies !crate::text::is_white(#[trigger] s[i]) by {
        if i < head.len() {
            assert(crate::text::is_digit(head[i]));
        } else {
            assert(s[i] == rest[i - head.len()]);
        }
    }
    crate::text::law_text_without_white_space_is_one_word(s);
    assert(!head.contains('.')) by {
        if head.contains('.') {
            let k = choose|k: int| 0 <= k < head.len() && head[k] == '.';
            assert(crate::text::is_digit(head[k]));
        }
    }
    if rest.len() == 0 {
        assert(s == head);
        crate::text::law_first_piece_ends_at_separator(head, rest, '.');
    } else {
        assert(s == head + seq!['.'] + rest.skip(1));
        crate::text::law_first_piece_ends_at_separator(head, rest.skip(1), '.');
    }
}

/// The display goes by `WAYLAND_DISPLAY` where that is set, else by the descriptor.
pub proof fn law_display_goes_by_its_name(d: Seq<char>, s: Seq<char>)
    requires
        d.len() > 0,
        s.len() > 0,
    ensures
        display_name(Some(d), Some(s)) == d,
        display_name(Some(d), None) == d,
        display_name(None, Some(s)) == "fd:"@ + s,
        display_name(Some(Seq::empty()), Some(s)) == "fd:"@ + s,
        display_name(None, None) == "wayland"@,
{
}

/// The value of a script is what it returned as JSON; a script that failed has none.
pub proof fn law_value_is_what_the_script_returned(version: GnomeVersion, result: String, j: Json)
    ensures
        parsed(result@) == Ok::<Json, Seq<char>>(j) ==> eval_value(
            version,
            EvalReply::Done { success: true, result },
        ) == Ok::<Json, MutterErrorView>(j),
        eval_value(version, EvalReply::Done { success: false, result }) is Err,
        eval_value(version, EvalReply::Failed(result)) is Err,
        eval_value(version, EvalReply::Unreachable(result)) is Err,
{
}

// ---------------------------------------------------------------------------
// Signals
// ---------------------------------------------------------------------------
/// The extension's signals tell of the windows they carry: an opened one, the one
/// with the focus, and the number of a closed one.
pub proof fn law_signals_tell_of_their_windows(
    iface: String,
    member: String,
    text: String,
    j: Json,
    w: WindowView,
    n: u32,
)
    requires
        iface@ == "org.gnome.Shell.AgentShell"@,
        parsed(text@) == Ok::<Json, Seq<char>>(j),
        text@.len() > 0,
        reported_window(j, 0) == Some(w),
    ensures
        member@ == "WindowOpened"@ ==> event_of(
            BusMessage {
                is_signal: true,
                interface: Some(iface),
                member,
                body: SignalBody::Text(text),
            },
        ) == Some(EventView::WindowOpened { info: w, source: EventSource::MutterExtension }),
        member@ == "ActiveWindowChanged"@ ==> event_of(
            BusMessage {
                is_signal: true,
                interface: Some(iface),
                member,
                body: SignalBody::Text(text),
            },
        ) == Some(EventView::WindowFocused { info: w, source: EventSource::MutterExtension }),
        member@ == "WindowClosed"@ ==> event_of(
            BusMessage {
                is_signal: true,
                interface: Some(iface),
                member,
                body: SignalBody::Number(n),
            },
        ) == Some(
            EventView::WindowClosed {
                id: IdView { native_id: dec(n as nat), de_type: DesktopEnvironment::GNOME },
                source: EventSource::MutterExtension,
            },
        ),
{
    reveal_strlit("WindowOpened");
    reveal_strlit("ActiveWindowChanged");
    reveal_strlit("WindowClosed");
    assert("WindowOpened"@[6] != "WindowClosed"@[6]);
}

/// Messages of others, and messages that are no signals, are no events.
pub proof fn law_other_messages_are_no_events(m: BusMessage)
    requires
        !m.is_signal || m.interface is None || m.interface->0@ != "org.gnome.Shell.AgentShell"@,
    ensures
        event_of(m) is None,
{
}

/// The lists and the active window of the extension are those in its answers; an
/// empty answer means that no window has the focus.
pub proof fn law_extension_answers_are_read(raw: Seq<char>, j: Json, e: Seq<char>)
    requires
        parsed(raw) == Ok::<Json, Seq<char>>(j),
        raw.len() > 0,
    ensures
        listed(Ok(raw)) == Ok::<Seq<WindowView>, MutterErrorView>(
            reported_windows(items_or_none(j)),
        ),
        reported_window(j, 0) is Some ==> active(Ok(raw)) == Ok::<
            Option<WindowView>,
            MutterErrorView,
        >(reported_window(j, 0)),
        reported_window(j, 0) is None ==> active(Ok(raw)) is Err,
        active(Ok(Seq::empty())) == Ok::<Option<WindowView>, MutterErrorView>(None),
        active(Err(e)) is Err,
        listed(Err(e)) is Err,
{
}

// ---------------------------------------------------------------------------
// The extension on disk
// ---------------------------------------------------------------------------
/// The extension is put below the user's data directory, under its own name; where that
/// is not set, below `.local/share` of the home directory. The system's directory comes
/// second.
pub proof fn law_extension_lies_in_its_directory(data: Seq<char>, home: Seq<char>)
    requires
        data.len() > 0,
        data.last() != '/',
        home.len() > 0,
        home.last() != '/',
    ensures
        user_dir(Some(data), Some(home)) == Some(
            data + "/gnome-shell/extensions/agent-shell-bridge@tsic.top"@,
        ),
        user_dir(None, Some(home)) == Some(
            home + "/.local/share/gnome-shell/extensions/agent-shell-bridge@tsic.top"@,
        ),
        user_dir(Some(Seq::empty()), Some(home)) == user_dir(None, Some(home)),
        user_dir(None, None) is None,
        candidate_dirs(Some(data), Some(home)).len() == 2,
        candidate_dirs(Some(data), Some(home))[0] == data
            + "/gnome-shell/extensions/agent-shell-bridge@tsic.top"@,
        candidate_dirs(Some(data), Some(home))[1]
            == "/usr/share/gnome-shell/extensions/agent-shell-bridge@tsic.top"@,
{
    lemma_below(data);
    lemma_below_home(home);
    lemma_system_dir();
}

proof fn lemma_below(data: Seq<char>)
    requires
        data.len() > 0,
        data.last() != '/',
    ensures
        path_join(path_join(data, "gnome-shell/extensions"@), "agent-shell-bridge@tsic.top"@)
            == data + "/gnome-shell/extensions/agent-shell-bridge@tsic.top"@,
{
    reveal_strlit("gnome-shell/extensions");
    reveal_strlit("agent-shell-bridge@tsic.top");
    reveal_strlit("/gnome-shell/extensions/agent-shell-bridge@tsic.top");
    let a = "gnome-shell/extensions"@;
    let b = "agent-shell-bridge@tsic.top"@;
    law_paths_are_joined_by_a_slash(data, a);
    let d = data + seq!['/'] + a;
    assert(d.last() == 's');
    law_paths_are_joined_by_a_slash(d, b);
    assert(d + seq!['/'] + b =~= data + "/gnome-shell/extensions/agent-shell-bridge@tsic.top"@);
}

proof fn lemma_below_home(home: Seq<char>)
    requires
        home.len() > 0,
        home.last() != '/',
    ensures
        path_join(
            path_join(path_join(home, ".local/share"@), "gnome-shell/extensions"@),
            "agent-shell-bridge@tsic.top"@,
        ) == home + "/.local/share/gnome-shell/extensions/agent-shell-bridge@tsic.top"@,
{
    reveal_strlit(".local/share");
    reveal_strlit("/.local/share/gnome-shell/extensions/agent-shell-bridge@tsic.top");
    reveal_strlit("/gnome-shell/extensions/agent-shell-bridge@tsic.top");
    let a = ".local/share"@;
    law_paths_are_joined_by_a_slash(home, a);
    let d = home + seq!['/'] + a;
    assert(d.last() == 'e');
    lemma_below(d);
    assert(d + "/gnome-shell/extensions/agent-shell-bridge@tsic.top"@ =~= home
        + "/.local/share/gnome-shell/extensions/agent-shell-bridge@tsic.top"@);
}

proof fn lemma_system_dir()
    ensures
        path_join("/usr/share/gnome-shell/extensions"@, "agent-shell-bridge@tsic.top"@)
            == "/usr/share/gnome-shell/extensions/agent-shell-bridge@tsic.top"@,
{
    reveal_strlit("/usr/share/gnome-shell/extensions");
    reveal_strlit("agent-shell-bridge@tsic.top");
    reveal_strlit("/usr/share/gnome-shell/extensions/agent-shell-bridge@tsic.top");
    let d = "/usr/share/gnome-shell/extensions"@;
    law_paths_are_joined_by_a_slash(d, "agent-shell-bridge@tsic.top"@);
    assert(d + seq!['/'] + "agent-shell-bridge@tsic.top"@
        =~= "/usr/share/gnome-shell/extensions/agent-shell-bridge@tsic.top"@);
}

/// Versions cover the running one if and only if one of them begins with its number;
/// nothing speaks against an unknown one.
pub proof fn law_versions_cover_their_number(versions: Seq<Seq<char>>, n: u32, i: int)
    ensures
        covers(versions, None),
        0 <= i < versions.len() && versions[i] == dec(n as nat) ==> covers(versions, Some(n)),
        covers(versions, Some(n)) ==> exists|k: int|
            0 <= k < versions.len() && leading_number(#[trigger] versions[k]) == Some(n as nat),
{
    if 0 <= i < versions.len() && versions[i] == dec(n as nat) {
        lemma_leading(n);
        assert(leading_number(versions[i]) == Some(n as nat));
    }
}

proof fn lemma_leading(n: u32)
    ensures
        leading_number(dec(n as nat)) == Some(n as nat),
{
    let head = dec(n as nat);
    crate::text::lemma_dec_is_number(n as nat);
    crate::text::law_read_unsigned_of_dec(n as nat, u32::MAX as nat);
    assert(!head.contains('.')) by {
        if head.contains('.') {
            let k = choose|k: int| 0 <= k < head.len() && head[k] == '.';
            assert(crate::text::is_digit(head[k]));
        }
    }
    crate::text::law_first_piece_ends_at_separator(head, Seq::empty(), '.');
}

/// The running version is the one in the environment where that is a number, or else
/// the last word of what the shell prints.
pub proof fn law_running_version_is_found(n: u32, m: u32, text: Seq<char>)
    ensures
        running_major(Some(dec(n as nat)), Some(text)) == Some(n as nat),
        running_major(None, Some(text + seq![' '] + dec(m as nat))) == Some(m as nat),
        running_major(None, None) is None,
{
    lemma_leading(n);
    lemma_leading(m);
    let word = dec(m as nat);
    crate::text::lemma_dec_is_number(m as nat);
    assert forall|i: int| 0 <= i < word.len() implies !crate::text::is_white(#[trigger] word[i]) by {
        assert(crate::text::is_digit(word[i]));
    }
    crate::text::law_word_behind_a_blank(text, word);
    assert(crate::text::words(text).push(word).last() == word);
}

/// The shell loads what lies in a directory if and only if its files are there and its
/// description names the running version.
pub proof fn law_loadable_needs_files_and_version(d: DirView, n: u32)
    ensures
        !d.files_present ==> !d.loadable(Some(n)) && !d.mismatched(n),
        d.metadata is None ==> !d.loadable(Some(n)) && !d.mismatched(n),
        d.loadable(Some(n)) ==> d.files_present && covers(d.versions(), Some(n)),
        d.files_present && covers(d.versions(), Some(n)) ==> d.loadable(Some(n)),
{
}

/// The extension lies in the first directory that has its files.
pub proof fn law_first_directory_with_files_counts(dirs: Seq<DirState>)
    ensures
        match first_present(dirs) {
            Some(d) => exists|i: int|
                0 <= i < dirs.len() && (#[trigger] dirs[i]).files_present && dirs[i].dir@ == d
                    && forall|k: int| 0 <= k < i ==> !(#[trigger] dirs[k]).files_present,
            None => forall|k: int| 0 <= k < dirs.len() ==> !(#[trigger] dirs[k]).files_present,
        },
    decreases dirs.len(),
{
    if dirs.len() > 0 && !dirs[0].files_present {
        let rest = dirs.skip(1);
        law_first_directory_with_files_counts(rest);
        match first_present(rest) {
            Some(d) => {
                let i = choose|i: int|
                    0 <= i < rest.len() && (#[trigger] rest[i]).files_present && rest[i].dir@ == d
                        && forall|k: int| 0 <= k < i ==> !(#[trigger] rest[k]).files_present;
                assert(dirs[i + 1] == rest[i]);
                assert forall|k: int| 0 <= k < i + 1 implies !(
                #[trigger] dirs[k]).files_present by {
                    if k > 0 {
                        assert(rest[k - 1] == dirs[k]);
                    }
                }
            },
            None => {
                assert forall|k: int| 0 <= k < dirs.len() implies !(
                #[trigger] dirs[k]).files_present by {
                    if k > 0 {
                        assert(rest[k - 1] == dirs[k]);
                    }
                }
            },
        }
    } else if dirs.len() > 0 {
        assert(dirs[0].files_present && dirs[0].dir@ == first_present(dirs)->0);
    }
}

/// What is not installed is never on. The list decides where it can be read: the
/// extension is on if and only if the list holds its name in quotes; only without the
/// list does the report of the tool count.
pub proof fn law_list_decides_what_is_on(list: Seq<char>, report: Option<Seq<char>>)
    ensures
        !switched_on(false, Some(list), report),
        switched_on(true, Some(list), report) <==> crate::text::contains(
            list,
            "'"@ + "agent-shell-bridge@tsic.top"@ + "'"@,
        ),
        !switched_on(true, None, None),
{
}

/// The errors of the channels become component errors of their kinds, with their texts.
pub proof fn law_errors_keep_their_kind(m: Seq<char>)
    ensures
        MutterErrorView::Eval(m).shell_error() == ErrorView::DBus("gnome eval: "@ + m),
        MutterErrorView::Extension(m).shell_error() == ErrorView::BackendUnavailable(
            "gnome extension "@ + "agent-shell-bridge@tsic.top"@ + ": "@ + m,
        ),
        MutterErrorView::DisplayConfig(m).shell_error() == ErrorView::DBus(
            "mutter display config: "@ + m,
        ),
        MutterErrorView::Wayland(m).shell_error() == ErrorView::BackendUnavailable(
            "mutter wayland: "@ + m,
        ),
        MutterErrorView::Version(m).shell_error() == ErrorView::BackendUnavailable(
            "gnome version: "@ + m,
        ),
{
}

/// The numbers of the ways to apply a configuration.
pub proof fn law_ways_to_apply_have_their_numbers()
    ensures
        ApplyMethod::Verify.code() == 0,
        ApplyMethod::Temporary.code() == 1,
        ApplyMethod::Persistent.code() == 2,
{
}

/// The list is written in square brackets, each item in single quotes, with a comma and a
/// blank between two.
pub proof fn law_list_is_written_in_brackets(a: Seq<char>, b: Seq<char>)
    ensures
        dconf_text(Seq::empty()) == "["@ + "]"@,
        dconf_text(seq![a]) == "["@ + ("'"@ + a + "'"@) + "]"@,
        dconf_text(seq![a, b]) == "["@ + ("'"@ + a + "'"@ + ", "@ + ("'"@ + b + "'"@)) + "]"@,
{
    let none = Seq::<Seq<char>>::empty();
    assert(join(all_quoted(none), ", "@) =~= Seq::<char>::empty());
    assert("["@ + Seq::<char>::empty() =~= "["@);
    assert(all_quoted(seq![a]) =~= seq![quoted(a)]);
    assert(all_quoted(seq![a, b]) =~= seq![quoted(a), quoted(b)]);
    assert(seq![quoted(a), quoted(b)].drop_last() =~= seq![quoted(a)]);
    assert(join(seq![quoted(a)], ", "@) == quoted(a));
    assert(join(seq![quoted(a), quoted(b)], ", "@) == quoted(a) + ", "@ + quoted(b));
}

/// A program's text is what it wrote, without white space around it; a program that did
/// not start, failed or wrote no text gives an error that names it.
pub proof fn law_program_text_is_its_output(program: Seq<char>, o: RunOutcome)
    ensures
        o matches RunOutcome::Output(bytes) ==> (valid_utf8(bytes@) ==> run_text(program, o)
            == Ok::<Seq<char>, Seq<char>>(trim(decode_utf8(bytes@)))),
        o matches RunOutcome::NotStarted(e) ==> run_text(program, o) == Err::<Seq<char>, Seq<char>>(
            "spawn "@ + program + ": "@ + e@,
        ),
        o matches RunOutcome::Exited(e) ==> run_text(program, o) == Err::<Seq<char>, Seq<char>>(
            program + " exited "@ + e@,
        ),
{
}

/// The version is that of the property where it could be read; the environment counts
/// only where the reading failed, and an unreachable shell is an error whatever the
/// environment says.
pub proof fn law_environment_stands_in_for_a_failed_reading(
    raw: String,
    reason: String,
    env: Seq<char>,
    v: GnomeVersionView,
)
    ensures
        shell_version(raw@) == Some(v) ==> detected(VersionReading::Text(raw), Some(env)) == Ok::<
            GnomeVersionView,
            MutterErrorView,
        >(v),
        shell_version(raw@) is None ==> detected(VersionReading::Text(raw), Some(env)) is Err,
        shell_version(env) == Some(v) ==> detected(VersionReading::Failed(reason), Some(env))
            == Ok::<GnomeVersionView, MutterErrorView>(v),
        detected(VersionReading::Failed(reason), None) is Err,
        detected(VersionReading::Unreachable(reason), Some(env)) is Err,
        detected(VersionReading::NotText(reason), Some(env)) is Err,
{
}

/// The extension is there if and only if its object names the interface.
pub proof fn law_extension_is_found_by_its_interface(xml: String, e: String)
    ensures
        extension_probe(IntrospectReply::Description(xml)) is Ok <==> crate::text::contains(
            xml@,
            "org.gnome.Shell.AgentShell"@,
        ),
        extension_probe(IntrospectReply::Failed(e)) is Err,
{
}

/// The sizes of the regions stand in the order of the regions.
pub proof fn law_region_sizes_are_in_order(l: LayoutView, i: int)
    requires
        0 <= i < l.logical_monitors.len(),
    ensures
        region_sizes(l).len() == l.logical_monitors.len(),
        region_sizes(l)[i] == region_size(l.monitors, l.logical_monitors[i]),
        monitor_of(l, i, region_sizes(l)[i]).physical_geometry.width == region_sizes(l)[i].0,
        monitor_of(l, i, region_sizes(l)[i]).physical_geometry.height == region_sizes(l)[i].1,
{
}

/// What GNOME does not offer is named.
pub proof fn law_missing_operations_are_named()
    ensures
        missing_reason(Missing::Resize)
            == "mutter: window resize not supported on GNOME (no protocol; portal-only)"@,
        missing_reason(Missing::SetGeometry)
            == "mutter: set_geometry not supported on GNOME (no protocol; portal-only)"@,
        missing_reason(Missing::ListWorkspaces)
            == "mutter: workspace enumeration not supported on GNOME"@,
        missing_reason(Missing::ActivateWorkspace)
            == "mutter: workspace activation not supported on GNOME"@,
        missing_reason(Missing::MoveToWorkspace)
            == "mutter: move-to-workspace not supported on GNOME"@,
{
}

/// The report says which display is connected, or that the display is not; which side of
/// the version decides; which channel is used; and whether the screen saver was seen.
pub proof fn law_report_has_its_lines(m: MutterView, name: Seq<char>, wl: WaylandDisplayServer)
    ensures
        m.report().len() == 5,
        m.session == SessionKind::Wayland && m.wayland_core == Some(wl) && m.wayland_display_name
            == Some(name) ==> m.report()[0] == "✓ Wayland 显示  : "@ + name
            + " (wl_display connected, "@ + dec(wl.globals as nat) + " globals)"@,
        m.session == SessionKind::Wayland && m.wayland_core is None && m.wayland_display_name
            == Some(name) ==> m.report()[0]
            == "⚠ 协议通道     : D-Bus（org.gnome.Shell；Wayland 会话 "@ + name
            + " 连接失败，仅 D-Bus 可用）"@,
        m.session == SessionKind::X11 ==> m.report()[0]
            == "⚠ 协议通道     : D-Bus（org.gnome.Shell，X11 会话无 Wayland 绑定）"@,
        m.report()[1] == "✓ GNOME 版本   : GNOME "@ + m.version.full + " ("@ + (if m.version.major
            == GnomeMajor::V47Plus {
            "Eval 受限"@
        } else {
            "Eval 可用"@
        }) + ")"@,
        m.path is Eval ==> m.report()[2] == "✓ 后端路径     : "@ + "Eval"@ + " ("@
            + "agent-shell-bridge@tsic.top"@ + ")"@,
        m.path is Extension ==> m.report()[2] == "✓ 后端路径     : "@ + "Extension"@ + " ("@
            + "agent-shell-bridge@tsic.top"@ + ")"@,
        m.report()[3]
            == "✓ D-Bus 接口   : org.gnome.Shell ✓, DisplayConfig ✓, ScreenSaver "@ + (
        if m.screensaver_probe == 2 {
            "✓"@
        } else {
            "⚠"@
        }),
{
}

/// Without modes there is no current one, and without a marked one the first counts.
pub proof fn law_first_mode_counts_without_a_mark(items: Seq<BusValue>)
    requires
        marked_mode(items) is None,
    ensures
        modes_in(items).len() == 0 ==> current_mode(items) is None,
        modes_in(items).len() > 0 ==> current_mode(items) == Some(modes_in(items)[0].id),
{
}

/// A region without a connector, or at one that no monitor has, has no size.
pub proof fn law_region_without_monitor_has_no_size(
    monitors: Seq<PhysicalView>,
    region: LogicalView,
)
    requires
        region.connectors.len() > 0 ==> forall|i: int|
            0 <= i < monitors.len() ==> (#[trigger] monitors[i]).connector != region.connectors[0],
    ensures
        region_size(monitors, region) == (0i32, 0i32),
{
    if region.connectors.len() > 0 {
        lemma_no_monitor_there(monitors, region.connectors[0]);
    }
}

proof fn lemma_no_monitor_there(monitors: Seq<PhysicalView>, connector: Seq<char>)
    requires
        forall|i: int|
            0 <= i < monitors.len() ==> (#[trigger] monitors[i]).connector != connector,
    ensures
        at_connector(monitors, connector) is None,
    decreases monitors.len(),
{
    if monitors.len() > 0 {
        let rest = monitors.skip(1);
        assert(monitors[0].connector != connector);
        assert forall|i: int| 0 <= i < rest.len() implies (#[trigger] rest[i]).connector
            != connector by {
            assert(rest[i] == monitors[i + 1]);
        }
        lemma_no_monitor_there(rest, connector);
    }
}

/// An identifier that is no number is refused with its own text.
pub proof fn law_refused_identifier_is_named(id: Seq<char>)
    ensures
        rejected_id(id) == MutterErrorView::Eval(
            "non-numeric window id `"@ + id + "` rejected (meta_window ids are numeric)"@,
        ),
{
}

/// The versions that a description names are its texts, in their order.
pub proof fn law_texts_are_taken_in_order(items: Seq<Json>, last: Json)
    ensures
        strings_in(Seq::empty()).len() == 0,
        last matches Json::Str(s) ==> strings_in(items.push(last)) == strings_in(items).push(s@),
        !(last is Str) ==> strings_in(items.push(last)) == strings_in(items),
{
    assert(items.push(last).drop_last() =~= items);
}

/// A layout that cannot be read, and an answer that is no JSON, are told with the reason.
pub proof fn law_failed_readings_are_told(e: String, version: GnomeVersion, text: String)
    ensures
        layout_in(StateReply::Unreachable(e)) == Err::<LayoutView, MutterErrorView>(
            MutterErrorView::DisplayConfig("org.gnome.Mutter.DisplayConfig unreachable: "@ + e@),
        ),
        layout_in(StateReply::Failed(e)) == Err::<LayoutView, MutterErrorView>(
            MutterErrorView::DisplayConfig("GetCurrentState failed: "@ + e@),
        ),
        parsed(text@) matches Err(why) ==> eval_value(
            version,
            EvalReply::Done { success: true, result: text },
        ) == Err::<Json, MutterErrorView>(MutterErrorView::Eval("invalid JSON from eval: "@ + why)),
        eval_value(version, EvalReply::Failed(e)) == Err::<Json, MutterErrorView>(
            MutterErrorView::Eval("call failed at /org/gnome/Shell: "@ + e@),
        ),
{
}

} // verus!
