//! Window events of an X11 session.
//!
//! The window manager announces changes of the client list and of the active
//! window as properties of the root window. The events are the difference
//! between what was known and what is announced.

use vstd::prelude::*;

use crate::kwin::event_source::{raw_views, RawEvent, RawView};
use crate::text::{dec, dec_of};
use crate::types::{DesktopEnvironment, DesktopEvent, EventSource, EventView, IdView, WindowId};

verus! {

/// The items of `a` that are not in `b`, in the order of `a`.
pub open spec fn minus(a: Seq<u32>, b: Seq<u32>) -> Seq<u32> {
    a.filter(|w: u32| !b.contains(w))
}

fn in_list(v: &[u32], w: u32) -> (r: bool)
    ensures
        r == v@.contains(w),
{
    let mut i: usize = 0;
    while i < v.len()
        invariant
            i <= v@.len(),
            forall|j: int| 0 <= j < i ==> v@[j] != w,
        decreases v@.len() - i,
    {
        if v[i] == w {
            return true;
        }
        i = i + 1;
    }
    false
}

fn without(a: &[u32], b: &[u32]) -> (r: Vec<u32>)
    ensures
        r@ == minus(a@, b@),
{
    let mut out: Vec<u32> = Vec::new();
    let mut i: usize = 0;
    proof {
        assert(a@.take(0) =~= Seq::<u32>::empty());
        reveal(Seq::filter);
    }
    while i < a.len()
        invariant
            i <= a@.len(),
            out@ == minus(a@.take(i as int), b@),
        decreases a@.len() - i,
    {
        proof {
            reveal(Seq::filter);
            assert(a@.take(i as int + 1).drop_last() =~= a@.take(i as int));
        }
        if !in_list(b, a[i]) {
            out.push(a[i]);
        }
        i = i + 1;
    }
    assert(a@.take(i as int) =~= a@);
    out
}

/// What a list of windows gained and what it lost, each in its own order.
pub fn diff_window_sets(prev: &[u32], cur: &[u32]) -> (r: (Vec<u32>, Vec<u32>))
    ensures
        r.0@ == minus(cur@, prev@),
        r.1@ == minus(prev@, cur@),
{
    (without(cur, prev), without(prev, cur))
}

/// Nothing is gained and nothing lost exactly where both lists hold the same
/// windows.
pub proof fn law_no_difference_iff_same_windows(prev: Seq<u32>, cur: Seq<u32>)
    ensures
        (minus(cur, prev).len() == 0 && minus(prev, cur).len() == 0) <==> (forall|w: u32|
            prev.contains(w) <==> cur.contains(w)),
{
    law_difference_members(cur, prev);
    law_difference_members(prev, cur);
    if forall|w: u32| prev.contains(w) <==> cur.contains(w) {
        if minus(cur, prev).len() > 0 {
            assert(minus(cur, prev).contains(minus(cur, prev)[0]));
        }
        if minus(prev, cur).len() > 0 {
            assert(minus(prev, cur).contains(minus(prev, cur)[0]));
        }
    }
    if minus(cur, prev).len() == 0 && minus(prev, cur).len() == 0 {
        assert forall|w: u32| prev.contains(w) <==> cur.contains(w) by {
            if prev.contains(w) && !cur.contains(w) {
                assert(minus(prev, cur).contains(w));
            }
            if cur.contains(w) && !prev.contains(w) {
                assert(minus(cur, prev).contains(w));
            }
        }
    }
}

/// The difference holds exactly the windows of the one list that the other one
/// lacks.
pub proof fn law_difference_members(a: Seq<u32>, b: Seq<u32>)
    ensures
        forall|w: u32| #[trigger] minus(a, b).contains(w) <==> a.contains(w) && !b.contains(w),
{
    let keep = |w: u32| !b.contains(w);
    assert forall|w: u32| #[trigger] minus(a, b).contains(w) <==> a.contains(w) && !b.contains(
        w,
    ) by {
        if minus(a, b).contains(w) {
            a.lemma_filter_contains_rev(keep, w);
            let i = choose|i: int| 0 <= i < minus(a, b).len() && minus(a, b)[i] == w;
            a.lemma_filter_pred(keep, i);
        }
        if a.contains(w) && !b.contains(w) {
            let i = choose|i: int| 0 <= i < a.len() && a[i] == w;
            a.lemma_filter_contains(keep, i);
        }
    }
}

/// What the root window announced.
pub enum RootChange {
    /// The list of clients, as it is now.
    Clients(Vec<u32>),
    /// The active window, as it is now.
    Active(Option<u32>),
}

/// What is known of the windows of the session.
pub struct EwmhState {
    pub clients: Vec<u32>,
    pub active: Option<u32>,
}

/// The events for windows that appeared and then those for windows that went.
pub open spec fn client_events(prev: Seq<u32>, cur: Seq<u32>) -> Seq<RawView> {
    minus(cur, prev).map_values(|w: u32| RawView::Added(dec(w as nat))) + minus(
        prev,
        cur,
    ).map_values(|w: u32| RawView::Removed(dec(w as nat)))
}

/// The event for a new active window. Losing the focus is no event.
pub open spec fn active_events(prev: Option<u32>, cur: Option<u32>) -> Seq<RawView> {
    match cur {
        Some(w) => if prev != cur {
            seq![RawView::Activated(Some(dec(w as nat)))]
        } else {
            Seq::empty()
        },
        None => Seq::empty(),
    }
}

impl EwmhState {
    /// Takes in an announcement and reports the events that it means.
    pub fn apply(&mut self, change: RootChange) -> (r: Vec<RawEvent>)
        ensures
            match change {
                RootChange::Clients(cur) => {
                    &&& raw_views(r@) == client_events(old(self).clients@, cur@)
                    &&& final(self).clients@ == cur@
                    &&& final(self).active == old(self).active
                },
                RootChange::Active(cur) => {
                    &&& raw_views(r@) == active_events(old(self).active, cur)
                    &&& final(self).active == cur
                    &&& final(self).clients == old(self).clients
                },
            },
    {
        broadcast use crate::kwin::event_source::lemma_raw_push;

        let mut out: Vec<RawEvent> = Vec::new();
        match change {
            RootChange::Clients(cur) => {
                let ghost prev = self.clients@;
                let (added, removed) = diff_window_sets(self.clients.as_slice(), cur.as_slice());
                let ghost ups = added@.map_values(|w: u32| RawView::Added(dec(w as nat)));
                let ghost downs = removed@.map_values(|w: u32| RawView::Removed(dec(w as nat)));
                let mut i: usize = 0;
                while i < added.len()
                    invariant
                        i <= added.len(),
                        ups == added@.map_values(|w: u32| RawView::Added(dec(w as nat))),
                        raw_views(out@) == ups.take(i as int),
                    decreases added.len() - i,
                {
                    let ghost had = raw_views(out@);
                    out.push(RawEvent::KWinWindowAdded { id: dec_of(added[i] as u64) });
                    assert(raw_views(out@) == had.push(ups[i as int]));
                    i = i + 1;
                    assert(raw_views(out@) =~= ups.take(i as int));
                }
                assert(ups.take(i as int) =~= ups);
                let mut j: usize = 0;
                assert(raw_views(out@) =~= ups + downs.take(0));
                while j < removed.len()
                    invariant
                        j <= removed.len(),
                        downs == removed@.map_values(|w: u32| RawView::Removed(dec(w as nat))),
                        raw_views(out@) == ups + downs.take(j as int),
                    decreases removed.len() - j,
                {
                    let ghost had = raw_views(out@);
                    out.push(RawEvent::KWinWindowRemoved { id: dec_of(removed[j] as u64) });
                    assert(raw_views(out@) == had.push(downs[j as int]));
                    j = j + 1;
                    assert(raw_views(out@) =~= ups + downs.take(j as int));
                }
                assert(downs.take(j as int) =~= downs);
                self.clients = cur;
            },
            RootChange::Active(cur) => {
                let changed = match (self.active, cur) {
                    (Some(a), Some(b)) => a != b,
                    (None, None) => false,
                    _ => true,
                };
                if changed {
                    if let Some(w) = cur {
                        out.push(
                            RawEvent::KWinActiveWindowChanged { id: Some(dec_of(w as u64)) },
                        );
                        assert(raw_views(out@) =~= seq![
                            RawView::Activated(Some(dec(w as nat))),
                        ]);
                    }
                }
                self.active = cur;
            },
        }
        out
    }
}

/// Events are differences: applying the same announcement again means nothing
/// new.
pub proof fn law_repeated_announcement_is_silent(clients: Seq<u32>, active: Option<u32>)
    ensures
        client_events(clients, clients).len() == 0,
        active_events(active, active).len() == 0,
{
    law_no_difference_iff_same_windows(clients, clients);
    assert(client_events(clients, clients) =~= Seq::<RawView>::empty());
}

/// The client list to start from: the one in stacking order where it could be
/// read and is not empty, else the plain one, if that could be read.
pub fn initial_client_list(stacking: Option<Vec<u32>>, plain: Option<Vec<u32>>) -> (r: Option<
    Vec<u32>,
>)
    ensures
        match stacking {
            Some(s) => if s@.len() > 0 {
                r == stacking
            } else {
                r == plain
            },
            None => r == plain,
        },
{
    match stacking {
        Some(s) => if s.len() > 0 {
            Some(s)
        } else {
            plain
        },
        None => plain,
    }
}

/// What an event says to someone who only follows identifiers: a window that
/// appeared or was activated is announced as its identifier, carried by a closed
/// event; everything else is left out.
pub open spec fn approximate(raw: RawView, source: EventSource) -> Option<EventView> {
    match raw {
        RawView::Added(id) => Some(
            EventView::WindowClosed {
                id: IdView { native_id: id, de_type: DesktopEnvironment::KDE },
                source,
            },
        ),
        RawView::Activated(Some(id)) => Some(
            EventView::WindowClosed {
                id: IdView { native_id: id, de_type: DesktopEnvironment::KDE },
                source,
            },
        ),
        _ => None,
    }
}

/// The approximate event for a raw one of an X11 session.
pub fn map_raw_to_core(raw: RawEvent) -> (r: Option<DesktopEvent>)
    ensures
        crate::types::opt_view(r) == approximate(raw@, EventSource::KWinX11),
{
    let id = match raw {
        RawEvent::KWinWindowAdded { id } => id,
        RawEvent::KWinActiveWindowChanged { id: Some(id) } => id,
        _ => return None,
    };
    Some(
        DesktopEvent::WindowClosed {
            id: WindowId { native_id: id, de_type: DesktopEnvironment::KDE },
            source: EventSource::KWinX11,
        },
    )
}

} // verus!
