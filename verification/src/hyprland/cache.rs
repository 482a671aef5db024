//! The windows that are known of a Hyprland session.
//!
//! A snapshot of all clients fills the cache, events keep it up to date. Queries
//! that find an entry need no request.

use vstd::prelude::*;

use crate::text::{chars_of, dec, dec_of, owned, piece};
use crate::types::{
    copy_windows, find_window, lemma_views_push, opt_view, pick_window, views, without_window,
    zero_rect, DesktopEnvironment, IdView, Rect, WindowId, WindowInfo, WindowState, WindowType,
    WindowView, WorkspaceId,
};

verus! {

/// `s` without any number of leading "0x".
pub open spec fn without_0x(s: Seq<char>) -> Seq<char>
    decreases s.len(),
{
    if s.len() >= 2 && s[0] == '0' && s[1] == 'x' {
        without_0x(s.skip(2))
    } else {
        s
    }
}

/// The identity behind a window address.
pub open spec fn id_of_address(address: Seq<char>) -> IdView {
    IdView { native_id: without_0x(address), de_type: DesktopEnvironment::Hyprland }
}

/// `s` without any number of leading "0x".
pub fn strip_0x(s: &str) -> (r: String)
    ensures
        r@ == without_0x(s@),
{
    let v = chars_of(s);
    let mut i: usize = 0;
    assert(s@.skip(0) =~= s@);
    while v.len() - i >= 2 && v[i] == '0' && v[i + 1] == 'x'
        invariant
            i <= v.len(),
            v@ == s@,
            without_0x(s@) == without_0x(s@.skip(i as int)),
        decreases v.len() - i,
    {
        assert(s@.skip(i as int).skip(2) =~= s@.skip(i as int + 2));
        i = i + 2;
    }
    assert(s@.skip(i as int) =~= v@.subrange(i as int, v.len() as int));
    piece(&v, i, v.len())
}

/// The identity behind a window address, with or without its "0x".
pub fn window_id(address: &str) -> (r: WindowId)
    ensures
        r@ == id_of_address(address@),
{
    WindowId { native_id: strip_0x(address), de_type: DesktopEnvironment::Hyprland }
}

/// A window is known by the same identity with and without "0x" in front of its
/// address.
pub proof fn law_prefix_makes_no_difference(address: Seq<char>)
    ensures
        id_of_address(seq!['0', 'x'] + address) == id_of_address(address),
{
    let s = seq!['0', 'x'] + address;
    assert(s.skip(2) =~= address);
}

/// The position of the first window with an identity, or the number of windows.
pub open spec fn window_position(ws: Seq<WindowView>, id: IdView) -> int
    decreases ws.len(),
{
    if ws.len() == 0 || ws[0].id == id {
        0
    } else {
        1 + window_position(ws.skip(1), id)
    }
}

/// The topmost window: the last one among those with the largest stacking
/// order.
pub open spec fn topmost(ws: Seq<WindowView>) -> Option<WindowView>
    decreases ws.len(),
{
    if ws.len() == 0 {
        None
    } else {
        match topmost(ws.drop_last()) {
            None => Some(ws.last()),
            Some(w) => if ws.last().stacking_order >= w.stacking_order {
                Some(ws.last())
            } else {
                Some(w)
            },
        }
    }
}

/// The workspace with a number.
pub open spec fn numbered_workspace(n: u32) -> IdView {
    IdView { native_id: dec(n as nat), de_type: DesktopEnvironment::Hyprland }
}

/// What is known of a window that was just announced.
pub open spec fn announced(
    address: Seq<char>,
    workspace: u32,
    class: Seq<char>,
    title: Seq<char>,
    stacking_order: u32,
) -> WindowView {
    WindowView {
        id: id_of_address(address),
        title,
        app_id: class,
        pid: 0,
        geometry: zero_rect(),
        frame_geometry: zero_rect(),
        states: Seq::empty(),
        workspace_id: Some(numbered_workspace(workspace)),
        monitor_id: None,
        stacking_order,
        desktop_file: None,
        window_type: WindowType::Normal,
        icon_geometry: None,
        keep_above: false,
    }
}

/// A known window after it was announced again: its title, unless the new one
/// is empty, its class and its workspace are brought up to date.
pub open spec fn announced_again(
    w: WindowView,
    workspace: u32,
    class: Seq<char>,
    title: Seq<char>,
) -> WindowView {
    WindowView {
        title: if title.len() > 0 {
            title
        } else {
            w.title
        },
        app_id: class,
        workspace_id: Some(numbered_workspace(workspace)),
        ..w
    }
}

/// The windows after one was announced.
pub open spec fn upserted(
    ws: Seq<WindowView>,
    address: Seq<char>,
    workspace: u32,
    class: Seq<char>,
    title: Seq<char>,
    stacking_order: u32,
) -> Seq<WindowView> {
    let i = window_position(ws, id_of_address(address));
    if i < ws.len() {
        ws.update(i, announced_again(ws[i], workspace, class, title))
    } else {
        ws.push(announced(address, workspace, class, title, stacking_order))
    }
}

/// The states after the fullscreen state was switched.
pub open spec fn fullscreen_states(states: Seq<WindowState>, on: bool) -> Seq<WindowState> {
    let rest = states.filter(|s: WindowState| s != WindowState::FullScreen);
    if on {
        rest.push(WindowState::FullScreen)
    } else {
        rest
    }
}

/// The windows after the fullscreen state of one was switched.
pub open spec fn fullscreen_set(ws: Seq<WindowView>, id: IdView, on: bool) -> Seq<WindowView> {
    let i = window_position(ws, id);
    if i < ws.len() {
        ws.update(i, WindowView { states: fullscreen_states(ws[i].states, on), ..ws[i] })
    } else {
        ws
    }
}

/// No identity occurs twice.
pub open spec fn distinct_windows(ws: Seq<WindowView>) -> bool {
    forall|i: int, j: int| 0 <= i < j < ws.len() ==> (#[trigger] ws[i]).id != (#[trigger] ws[j]).id
}

/// `ws` without windows whose identity occurred before.
pub open spec fn deduplicated(ws: Seq<WindowView>) -> Seq<WindowView>
    decreases ws.len(),
{
    if ws.len() == 0 {
        Seq::empty()
    } else {
        let front = deduplicated(ws.drop_last());
        if find_window(front, ws.last().id) is Some {
            front
        } else {
            front.push(ws.last())
        }
    }
}

// ---------------------------------------------------------------------------
// Facts
// ---------------------------------------------------------------------------
/// What the position of a window means.
pub proof fn lemma_window_position(ws: Seq<WindowView>, id: IdView)
    ensures
        0 <= window_position(ws, id) <= ws.len(),
        window_position(ws, id) < ws.len() ==> ws[window_position(ws, id)].id == id && find_window(
            ws,
            id,
        ) == Some(ws[window_position(ws, id)]),
        window_position(ws, id) == ws.len() ==> find_window(ws, id) is None,
        forall|j: int| 0 <= j < window_position(ws, id) ==> (#[trigger] ws[j]).id != id,
    decreases ws.len(),
{
    if ws.len() > 0 && ws[0].id != id {
        lemma_window_position(ws.skip(1), id);
        assert forall|j: int| 0 <= j < window_position(ws, id) implies (#[trigger] ws[j]).id
            != id by {
            if j > 0 {
                assert(ws[j] == ws.skip(1)[j - 1]);
            }
        }
    }
}

/// A window that stands somewhere, with no equal before it, is the one that is
/// found.
pub proof fn lemma_found_at(ws: Seq<WindowView>, id: IdView, i: int)
    requires
        0 <= i < ws.len(),
        ws[i].id == id,
        forall|j: int| 0 <= j < i ==> (#[trigger] ws[j]).id != id,
    ensures
        window_position(ws, id) == i,
        find_window(ws, id) == Some(ws[i]),
{
    lemma_window_position(ws, id);
    let p = window_position(ws, id);
    if p < i {
        assert(ws[p].id == id);
    }
    if p > i {
        assert(ws[i].id != id);
    }
}

/// A window that was announced is found, under the title and the class that it
/// was announced with; every other window is found as before.
pub proof fn law_announced_window_is_found(
    ws: Seq<WindowView>,
    address: Seq<char>,
    workspace: u32,
    class: Seq<char>,
    title: Seq<char>,
    stacking_order: u32,
    other: IdView,
)
    ensures
        ({
            let after = upserted(ws, address, workspace, class, title, stacking_order);
            &&& find_window(after, id_of_address(address)) is Some
            &&& find_window(after, id_of_address(address))->0.app_id == class
            &&& title.len() > 0 ==> find_window(after, id_of_address(address))->0.title == title
            &&& find_window(after, id_of_address(address))->0.workspace_id == Some(
                numbered_workspace(workspace),
            )
            &&& other != id_of_address(address) ==> find_window(after, other) == find_window(
                ws,
                other,
            )
        }),
{
    let id = id_of_address(address);
    let after = upserted(ws, address, workspace, class, title, stacking_order);
    lemma_window_position(ws, id);
    let i = window_position(ws, id);
    if i < ws.len() {
        assert forall|j: int| 0 <= j < i implies (#[trigger] after[j]).id != id by {
            assert(ws[j].id != id);
        }
        lemma_found_at(after, id, i);
        if other != id {
            lemma_same_elsewhere(ws, after, other);
        }
    } else {
        assert forall|j: int| 0 <= j < ws.len() implies (#[trigger] after[j]).id != id by {
            assert(ws[j].id != id);
        }
        lemma_found_at(after, id, ws.len() as int);
        if other != id {
            lemma_window_position(ws, other);
            lemma_window_position(after, other);
            let p = window_position(ws, other);
            if p < ws.len() {
                assert forall|j: int| 0 <= j < p implies (#[trigger] after[j]).id != other by {
                    assert(ws[j].id != other);
                }
                lemma_found_at(after, other, p);
            } else {
                let q = window_position(after, other);
                if q < ws.len() {
                    assert(ws[q].id != other);
                }
            }
        }
    }
}

/// Two lists that agree on all identities, and on the windows of one of them,
/// find that one alike.
proof fn lemma_same_elsewhere(a: Seq<WindowView>, b: Seq<WindowView>, id: IdView)
    requires
        a.len() == b.len(),
        forall|j: int| 0 <= j < a.len() ==> (#[trigger] a[j]).id == b[j].id,
        forall|j: int| 0 <= j < a.len() && (#[trigger] a[j]).id == id ==> a[j] == b[j],
    ensures
        find_window(a, id) == find_window(b, id),
{
    lemma_window_position(a, id);
    lemma_window_position(b, id);
    let p = window_position(a, id);
    if p < a.len() {
        assert forall|j: int| 0 <= j < p implies (#[trigger] b[j]).id != id by {
            assert(a[j].id != id);
        }
        lemma_found_at(b, id, p);
    } else {
        let q = window_position(b, id);
        if q < b.len() {
            assert(a[q].id == id);
        }
    }
}

/// Announcing a window never makes an identity occur twice.
pub proof fn law_announcing_keeps_windows_distinct(
    ws: Seq<WindowView>,
    address: Seq<char>,
    workspace: u32,
    class: Seq<char>,
    title: Seq<char>,
    stacking_order: u32,
)
    requires
        distinct_windows(ws),
    ensures
        distinct_windows(upserted(ws, address, workspace, class, title, stacking_order)),
{
    let id = id_of_address(address);
    lemma_window_position(ws, id);
    let after = upserted(ws, address, workspace, class, title, stacking_order);
    assert forall|a: int, b: int| 0 <= a < b < after.len() implies (#[trigger] after[a]).id != (
    #[trigger] after[b]).id by {
        if a < ws.len() && b < ws.len() {
            assert(ws[a].id != ws[b].id);
        } else {
            assert(ws[a].id != id);
        }
    }
}

/// A window that was removed is not found again, and every other window is found
/// as before.
pub proof fn law_removed_window_is_gone(ws: Seq<WindowView>, id: IdView, other: IdView)
    ensures
        find_window(without_window(ws, id), id) is None,
        other != id ==> find_window(without_window(ws, id), other) == find_window(ws, other),
    decreases ws.len(),
{
    let keep = |w: WindowView| w.id != id;
    reveal(Seq::filter);
    if ws.len() > 0 {
        let front = ws.drop_last();
        law_removed_window_is_gone(front, id, other);
        lemma_find_push(front, ws.last(), other);
        lemma_find_push(front, ws.last(), id);
        assert(front.push(ws.last()) =~= ws);
        if ws.last().id != id {
            lemma_find_push(without_window(front, id), ws.last(), other);
            lemma_find_push(without_window(front, id), ws.last(), id);
        }
    }
}

/// A window at the end is found only where no equal stands before it.
proof fn lemma_find_push(ws: Seq<WindowView>, w: WindowView, id: IdView)
    ensures
        find_window(ws.push(w), id) == (match find_window(ws, id) {
            Some(x) => Some(x),
            None => if w.id == id {
                Some(w)
            } else {
                None
            },
        }),
    decreases ws.len(),
{
    reveal_with_fuel(find_window, 2);
    if ws.len() == 0 {
        assert(ws.push(w).skip(1) =~= Seq::<WindowView>::empty());
    } else {
        lemma_find_push(ws.skip(1), w, id);
        assert(ws.push(w).skip(1) =~= ws.skip(1).push(w));
    }
}

/// Switching the fullscreen state on and off again leaves no trace of it.
pub proof fn law_fullscreen_off_after_on(states: Seq<WindowState>)
    ensures
        fullscreen_states(states, true).contains(WindowState::FullScreen),
        !fullscreen_states(states, false).contains(WindowState::FullScreen),
        fullscreen_states(fullscreen_states(states, true), false) == fullscreen_states(
            states,
            false,
        ),
{
    let keep = |s: WindowState| s != WindowState::FullScreen;
    let rest = states.filter(keep);
    let full = rest.push(WindowState::FullScreen);
    assert(full[rest.len() as int] == WindowState::FullScreen);
    if rest.contains(WindowState::FullScreen) {
        let i = choose|i: int| 0 <= i < rest.len() && rest[i] == WindowState::FullScreen;
        states.lemma_filter_pred(keep, i);
    }
    assert(full.filter(keep) == rest.filter(keep)) by {
        reveal(Seq::filter);
        assert(full.drop_last() =~= rest);
    }
    lemma_filter_twice(states);
}

proof fn lemma_filter_twice(states: Seq<WindowState>)
    ensures
        states.filter(|s: WindowState| s != WindowState::FullScreen).filter(
            |s: WindowState| s != WindowState::FullScreen,
        ) == states.filter(|s: WindowState| s != WindowState::FullScreen),
    decreases states.len(),
{
    let keep = |s: WindowState| s != WindowState::FullScreen;
    reveal(Seq::filter);
    if states.len() > 0 {
        lemma_filter_twice(states.drop_last());
        let front = states.drop_last().filter(keep);
        if keep(states.last()) {
            assert(front.push(states.last()).drop_last() =~= front);
        }
    }
}

/// What is left of a snapshot holds every identity of it once.
pub proof fn law_deduplicated_is_distinct(ws: Seq<WindowView>, id: IdView)
    ensures
        distinct_windows(deduplicated(ws)),
        find_window(deduplicated(ws), id) == find_window(ws, id),
    decreases ws.len(),
{
    if ws.len() > 0 {
        let front = deduplicated(ws.drop_last());
        law_deduplicated_is_distinct(ws.drop_last(), id);
        law_deduplicated_is_distinct(ws.drop_last(), ws.last().id);
        assert(ws.drop_last().push(ws.last()) =~= ws);
        lemma_find_push(ws.drop_last(), ws.last(), id);
        lemma_find_push(front, ws.last(), id);
        lemma_window_position(front, ws.last().id);
        if find_window(front, ws.last().id) is None {
            let after = front.push(ws.last());
            assert forall|a: int, b: int| 0 <= a < b < after.len() implies (#[trigger] after[a]).id
                != (#[trigger] after[b]).id by {
                if b == front.len() {
                    assert(front[a].id != ws.last().id);
                } else {
                    assert(front[a].id != front[b].id);
                }
            }
        }
    }
}

// ---------------------------------------------------------------------------
// The cache
// ---------------------------------------------------------------------------
/// The known windows.
#[derive(Debug)]
pub struct WindowCache {
    windows: Vec<WindowInfo>,
}

impl View for WindowCache {
    type V = Seq<WindowView>;

    closed spec fn view(&self) -> Seq<WindowView> {
        views(self.windows@)
    }
}

impl Default for WindowCache {
    fn default() -> (r: WindowCache)
        ensures
            r@ == Seq::<WindowView>::empty(),
    {
        let r = WindowCache { windows: Vec::new() };
        assert(r@ =~= Seq::<WindowView>::empty());
        r
    }
}

/// The position of the first window with an identity, or the number of windows.
fn position_of(ws: &Vec<WindowInfo>, id: &WindowId) -> (r: usize)
    ensures
        r <= ws@.len(),
        r == window_position(views(ws@), id@),
{
    let ghost all = views(ws@);
    let mut i: usize = 0;
    assert(all.skip(0) =~= all);
    while i < ws.len()
        invariant
            i <= ws.len(),
            all == views(ws@),
            window_position(all, id@) == i + window_position(all.skip(i as int), id@),
        decreases ws.len() - i,
    {
        assert(all[i as int] == ws@[i as int]@);
        if ws[i].id.same_as(id) {
            return i;
        }
        assert(all.skip(i as int).skip(1) =~= all.skip(i as int + 1));
        i = i + 1;
    }
    i
}

/// The windows whose identity did not occur before.
pub fn without_duplicates(ws: &Vec<WindowInfo>) -> (r: Vec<WindowInfo>)
    ensures
        views(r@) == deduplicated(views(ws@)),
{
    broadcast use lemma_views_push;

    let ghost all = views(ws@);
    let mut out: Vec<WindowInfo> = Vec::new();
    let mut i: usize = 0;
    assert(views(out@) =~= deduplicated(all.take(0)));
    while i < ws.len()
        invariant
            i <= ws.len(),
            all == views(ws@),
            views(out@) == deduplicated(all.take(i as int)),
        decreases ws.len() - i,
    {
        assert(all.take(i as int + 1).drop_last() =~= all.take(i as int));
        assert(all[i as int] == ws@[i as int]@);
        let p = position_of(&out, &ws[i].id);
        proof {
            lemma_window_position(views(out@), ws@[i as int].id@);
        }
        if p == out.len() {
            out.push(ws[i].clone());
        }
        i = i + 1;
    }
    assert(all.take(i as int) =~= all);
    out
}

impl WindowCache {
    /// Puts a snapshot in the place of everything known.
    pub fn replace_all(&mut self, windows: Vec<WindowInfo>)
        ensures
            final(self)@ == views(windows@),
    {
        self.windows = windows;
    }

    /// Everything known.
    pub fn snapshot(&self) -> (r: Vec<WindowInfo>)
        ensures
            views(r@) == self@,
    {
        copy_windows(&self.windows)
    }

    /// The window with an identity.
    pub fn get(&self, id: &WindowId) -> (r: Option<WindowInfo>)
        ensures
            opt_view(r) == find_window(self@, id@),
    {
        pick_window(&self.windows, id)
    }

    /// The window with the focus: the one with the largest stacking order.
    pub fn focused(&self) -> (r: Option<WindowInfo>)
        ensures
            opt_view(r) == topmost(self@),
    {
        let ghost all = self@;
        if self.windows.len() == 0 {
            return None;
        }
        let mut best: usize = 0;
        let mut i: usize = 1;
        proof {
            assert(all.take(1).drop_last() =~= Seq::<WindowView>::empty());
            assert(topmost(all.take(1).drop_last()) is None);
            assert(topmost(all.take(1)) == Some(all[0]));
        }
        while i < self.windows.len()
            invariant
                1 <= i <= self.windows.len(),
                best < i,
                all == self@,
                topmost(all.take(i as int)) == Some(all[best as int]),
            decreases self.windows.len() - i,
        {
            assert(all.take(i as int + 1).drop_last() =~= all.take(i as int));
            assert(all[i as int] == self.windows@[i as int]@);
            assert(all[best as int] == self.windows@[best as int]@);
            if self.windows[i].stacking_order >= self.windows[best].stacking_order {
                best = i;
            }
            i = i + 1;
        }
        assert(all.take(i as int) =~= all);
        Some(self.windows[best].clone())
    }

    /// A window was announced: what is known of it is brought up to date, or it
    /// becomes known with what the announcement says.
    pub fn upsert_minimal(
        &mut self,
        address: &str,
        workspace: u32,
        class: &str,
        title: &str,
        stacking_order: u32,
    )
        ensures
            final(self)@ == upserted(
                old(self)@,
                address@,
                workspace,
                class@,
                title@,
                stacking_order,
            ),
    {
        broadcast use lemma_views_push;

        let ghost before = self@;
        let id = window_id(address);
        let i = position_of(&self.windows, &id);
        let ws = WorkspaceId {
            native_id: dec_of(workspace as u64),
            de_type: DesktopEnvironment::Hyprland,
        };
        if i < self.windows.len() {
            let mut w = self.windows[i].clone();
            if !title.is_empty() {
                w.title = owned(title);
            }
            w.app_id = owned(class);
            w.workspace_id = Some(ws);
            let ghost now = w@;
            self.windows.set(i, w);
            assert(self@ =~= before.update(i as int, now));
            assert(now =~= announced_again(before[i as int], workspace, class@, title@));
            return;
        }
        let w = WindowInfo {
            id,
            title: owned(title),
            app_id: owned(class),
            pid: 0,
            geometry: Rect { x: 0, y: 0, width: 0, height: 0 },
            frame_geometry: Rect { x: 0, y: 0, width: 0, height: 0 },
            states: Vec::new(),
            workspace_id: Some(ws),
            monitor_id: None,
            stacking_order,
            desktop_file: None,
            window_type: WindowType::Normal,
            icon_geometry: None,
            keep_above: false,
        };
        assert(w@ =~= announced(address@, workspace, class@, title@, stacking_order));
        self.windows.push(w);
    }

    /// A window was closed: it is no longer known.
    pub fn remove(&mut self, address: &str)
        ensures
            final(self)@ == without_window(old(self)@, id_of_address(address@)),
    {
        broadcast use lemma_views_push;

        let id = window_id(address);
        let ghost before = self@;
        let ghost gone = id_of_address(address@);
        let mut out: Vec<WindowInfo> = Vec::new();
        let mut i: usize = 0;
        proof {
            reveal(Seq::filter);
            assert(views(out@) =~= without_window(before.take(0), gone));
        }
        while i < self.windows.len()
            invariant
                i <= self.windows.len(),
                before == self@,
                gone == id@,
                views(out@) == without_window(before.take(i as int), gone),
            decreases self.windows.len() - i,
        {
            proof {
                reveal(Seq::filter);
                assert(before.take(i as int + 1).drop_last() =~= before.take(i as int));
                assert(before[i as int] == self.windows@[i as int]@);
            }
            if !self.windows[i].id.same_as(&id) {
                out.push(self.windows[i].clone());
            }
            i = i + 1;
        }
        assert(before.take(i as int) =~= before);
        self.windows = out;
    }

    /// The fullscreen state of a window was switched.
    pub fn set_fullscreen(&mut self, address: &str, on: bool)
        ensures
            final(self)@ == fullscreen_set(old(self)@, id_of_address(address@), on),
    {
        let ghost before = self@;
        let id = window_id(address);
        let i = position_of(&self.windows, &id);
        if i < self.windows.len() {
            let mut w = self.windows[i].clone();
            let ghost w0 = w@;
            w.states = switch_fullscreen(&w.states, on);
            let ghost now = w@;
            assert(now =~= (WindowView { states: fullscreen_states(w0.states, on), ..w0 }));
            self.windows.set(i, w);
            assert(self@ =~= before.update(i as int, now));
        }
    }

    /// How many windows are known.
    pub fn len(&self) -> (r: usize)
        ensures
            r == self@.len(),
    {
        self.windows.len()
    }

    /// Whether no window is known.
    pub fn is_empty(&self) -> (r: bool)
        ensures
            r == (self@.len() == 0),
    {
        self.windows.len() == 0
    }
}

fn switch_fullscreen(states: &Vec<WindowState>, on: bool) -> (r: Vec<WindowState>)
    ensures
        r@ == fullscreen_states(states@, on),
{
    let ghost keep = |s: WindowState| s != WindowState::FullScreen;
    let mut out: Vec<WindowState> = Vec::new();
    let mut i: usize = 0;
    proof {
        reveal(Seq::filter);
        assert(out@ =~= states@.take(0).filter(keep));
    }
    while i < states.len()
        invariant
            i <= states.len(),
            keep == (|s: WindowState| s != WindowState::FullScreen),
            out@ == states@.take(i as int).filter(keep),
        decreases states.len() - i,
    {
        proof {
            reveal(Seq::filter);
            assert(states@.take(i as int + 1).drop_last() =~= states@.take(i as int));
        }
        if states[i] != WindowState::FullScreen {
            out.push(states[i]);
        }
        i = i + 1;
    }
    assert(states@.take(i as int) =~= states@);
    if on {
        out.push(WindowState::FullScreen);
    }
    out
}

} // verus!
