//! Window events of a Wayland session, taken from the window management
//! protocol.

use vstd::prelude::*;

use crate::kwin::event_source::{RawEvent, RawView};
use crate::text::same;
use crate::types::{
    opt_view, DesktopEnvironment, DesktopEvent, EventSource, EventView, IdView, WindowId,
};

verus! {

/// Oldest version of the protocol that can be bound: windows are addressed by
/// uuid from here on.
pub const WM_MIN: u32 = 12;

/// Newest version of the protocol that can be bound.
pub const WM_MAX: u32 = 18;

/// How long the event thread may hold the read guard, in milliseconds.
pub const EVENT_POLL_TIMEOUT_MS: u32 = 20;

/// The protocol objects that stand for windows: their numbers and the uuids of
/// their windows. No uuid occurs twice.
pub struct NativeWindows {
    pub objects: Vec<(u32, String)>,
}

/// The position of the first window with a uuid, or the length of the list.
pub open spec fn place_of_uuid(objects: Seq<(u32, Seq<char>)>, uuid: Seq<char>) -> nat
    decreases objects.len(),
{
    if objects.len() == 0 || objects[0].1 == uuid {
        0
    } else {
        1 + place_of_uuid(objects.skip(1), uuid)
    }
}

/// The position of the first window behind an object, or the length of the list.
pub open spec fn place_of_object(objects: Seq<(u32, Seq<char>)>, object: u32) -> nat
    decreases objects.len(),
{
    if objects.len() == 0 || objects[0].0 == object {
        0
    } else {
        1 + place_of_object(objects.skip(1), object)
    }
}

/// The windows after one was mapped: its object replaces an older one of the
/// same uuid.
pub open spec fn after_mapped(
    objects: Seq<(u32, Seq<char>)>,
    object: u32,
    uuid: Seq<char>,
) -> Seq<(u32, Seq<char>)> {
    let i = place_of_uuid(objects, uuid);
    if i < objects.len() {
        objects.update(i as int, (object, uuid))
    } else {
        objects.push((object, uuid))
    }
}

/// The windows after the one behind an object was unmapped.
pub open spec fn after_unmapped(objects: Seq<(u32, Seq<char>)>, object: u32) -> Seq<
    (u32, Seq<char>),
> {
    let i = place_of_object(objects, object);
    if i < objects.len() {
        objects.remove(i as int)
    } else {
        objects
    }
}

/// The event for the unmapping of an object: none where no window stands behind
/// it.
pub open spec fn unmapped_event(objects: Seq<(u32, Seq<char>)>, object: u32) -> Option<RawView> {
    let i = place_of_object(objects, object);
    if i < objects.len() {
        Some(RawView::Removed(objects[i as int].1))
    } else {
        None
    }
}

proof fn lemma_place_of_uuid(objects: Seq<(u32, Seq<char>)>, uuid: Seq<char>)
    ensures
        place_of_uuid(objects, uuid) <= objects.len(),
        place_of_uuid(objects, uuid) < objects.len() ==> objects[place_of_uuid(
            objects,
            uuid,
        ) as int].1 == uuid,
        forall|i: int|
            0 <= i < place_of_uuid(objects, uuid) ==> (#[trigger] objects[i]).1 != uuid,
    decreases objects.len(),
{
    if objects.len() > 0 && objects[0].1 != uuid {
        let rest = objects.skip(1);
        lemma_place_of_uuid(rest, uuid);
        assert forall|i: int| 0 <= i < place_of_uuid(objects, uuid) implies (
        #[trigger] objects[i]).1 != uuid by {
            if i > 0 {
                assert(rest[i - 1].1 != uuid);
            }
        }
    }
}

proof fn lemma_place_of_object(objects: Seq<(u32, Seq<char>)>, object: u32)
    ensures
        place_of_object(objects, object) <= objects.len(),
        place_of_object(objects, object) < objects.len() ==> objects[place_of_object(
            objects,
            object,
        ) as int].0 == object,
        forall|i: int|
            0 <= i < place_of_object(objects, object) ==> (#[trigger] objects[i]).0 != object,
    decreases objects.len(),
{
    if objects.len() > 0 && objects[0].0 != object {
        let rest = objects.skip(1);
        lemma_place_of_object(rest, object);
        assert forall|i: int| 0 <= i < place_of_object(objects, object) implies (
        #[trigger] objects[i]).0 != object by {
            if i > 0 {
                assert(rest[i - 1].0 != object);
            }
        }
    }
}

/// A window that was mapped under an object of its own is the one that is
/// reported when that object is unmapped.
pub proof fn law_unmapping_reports_the_mapped_window(
    objects: Seq<(u32, Seq<char>)>,
    object: u32,
    uuid: Seq<char>,
)
    requires
        forall|i: int| 0 <= i < objects.len() ==> (#[trigger] objects[i]).0 != object,
    ensures
        unmapped_event(after_mapped(objects, object, uuid), object) == Some(
            RawView::Removed(uuid),
        ),
{
    let now = after_mapped(objects, object, uuid);
    let at = place_of_uuid(objects, uuid) as int;
    lemma_place_of_uuid(objects, uuid);
    lemma_place_of_object(now, object);
    assert(now[at] == (object, uuid));
    assert forall|i: int| 0 <= i < now.len() && i != at implies (#[trigger] now[i]).0
        != object by {
        assert(now[i] == objects[i]);
    }
}

/// The windows by the numbers of their objects and their uuids.
impl View for NativeWindows {
    type V = Seq<(u32, Seq<char>)>;

    open spec fn view(&self) -> Seq<(u32, Seq<char>)> {
        self.objects@.map_values(|o: (u32, String)| (o.0, o.1@))
    }
}

impl NativeWindows {
    /// No uuid occurs twice.
    pub open spec fn wf(self) -> bool {
        forall|i: int, j: int|
            0 <= i < j < self@.len() ==> (#[trigger] self@[i]).1 != (#[trigger] self@[j]).1
    }

    /// No window yet.
    pub fn new() -> (r: NativeWindows)
        ensures
            r.wf(),
            r@.len() == 0,
    {
        NativeWindows { objects: Vec::new() }
    }

    /// A window was mapped and got the protocol object `object`.
    pub fn mapped(&mut self, object: u32, uuid: String) -> (r: RawEvent)
        requires
            old(self).wf(),
        ensures
            final(self).wf(),
            final(self)@ == after_mapped(old(self)@, object, uuid@),
            r@ == RawView::Added(uuid@),
    {
        let id = uuid.clone();
        let mut i: usize = 0;
        proof {
            lemma_place_of_uuid(self@, uuid@);
        }
        while i < self.objects.len()
            invariant
                i <= self.objects.len(),
                *self == *old(self),
                id@ == uuid@,
                self.wf(),
                i <= place_of_uuid(self@, uuid@) <= self@.len(),
                forall|j: int|
                    0 <= j < place_of_uuid(self@, uuid@) ==> (#[trigger] self@[j]).1 != uuid@,
            decreases self.objects.len() - i,
        {
            assert(self@[i as int].1 == self.objects@[i as int].1@);
            if same(self.objects[i].1.as_str(), uuid.as_str()) {
                self.objects.set(i, (object, uuid));
                assert(self@ =~= old(self)@.update(i as int, (object, id@)));
                return RawEvent::KWinWindowAdded { id };
            }
            proof {
                lemma_place_of_uuid(self@, uuid@);
            }
            i = i + 1;
        }
        self.objects.push((object, uuid));
        assert(self@ =~= old(self)@.push((object, id@)));
        RawEvent::KWinWindowAdded { id }
    }

    /// The window behind the protocol object `object` was unmapped.
    pub fn unmapped(&mut self, object: u32) -> (r: Option<RawEvent>)
        requires
            old(self).wf(),
        ensures
            final(self).wf(),
            final(self)@ == after_unmapped(old(self)@, object),
            opt_view(r) == unmapped_event(old(self)@, object),
    {
        let mut i: usize = 0;
        proof {
            lemma_place_of_object(self@, object);
        }
        while i < self.objects.len()
            invariant
                i <= self.objects.len(),
                *self == *old(self),
                self.wf(),
                i <= place_of_object(self@, object) <= self@.len(),
                forall|j: int|
                    0 <= j < place_of_object(self@, object) ==> (#[trigger] self@[j]).0 != object,
            decreases self.objects.len() - i,
        {
            assert(self@[i as int] == (self.objects@[i as int].0, self.objects@[i as int].1@));
            if self.objects[i].0 == object {
                let gone = self.objects.remove(i);
                assert(self@ =~= old(self)@.remove(i as int));
                return Some(RawEvent::KWinWindowRemoved { id: gone.1 });
            }
            proof {
                lemma_place_of_object(self@, object);
            }
            i = i + 1;
        }
        None
    }
}

/// What an event says to someone who only follows identifiers: a window that
/// appeared is announced as its identifier, carried by a closed event.
pub open spec fn approximate_native(raw: RawView) -> Option<EventView> {
    match raw {
        RawView::Added(id) => Some(
            EventView::WindowClosed {
                id: IdView { native_id: id, de_type: DesktopEnvironment::KDE },
                source: EventSource::KWinWayland,
            },
        ),
        _ => None,
    }
}

/// The approximate event for a raw one of a Wayland session.
pub fn map_raw_to_core(raw: RawEvent) -> (r: Option<DesktopEvent>)
    ensures
        opt_view(r) == approximate_native(raw@),
{
    match raw {
        RawEvent::KWinWindowAdded { id } => Some(
            DesktopEvent::WindowClosed {
                id: WindowId { native_id: id, de_type: DesktopEnvironment::KDE },
                source: EventSource::KWinWayland,
            },
        ),
        _ => None,
    }
}

} // verus!
