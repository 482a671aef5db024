//! Window events before they are normalised.

use vstd::prelude::*;

use crate::json::Json;
use crate::text::{opt_text, owned, same};

verus! {

/// What KWin reports of its windows.
#[derive(Debug, PartialEq, Eq)]
#[allow(inconsistent_fields)]
pub enum RawEvent {
    KWinWindowAdded { id: String },
    KWinWindowRemoved { id: String },
    KWinActiveWindowChanged { id: Option<String> },
}

/// What a raw event says.
#[verifier::ext_equal]
pub enum RawView {
    Added(Seq<char>),
    Removed(Seq<char>),
    Activated(Option<Seq<char>>),
}

impl View for RawEvent {
    type V = RawView;

    open spec fn view(&self) -> RawView {
        match *self {
            RawEvent::KWinWindowAdded { id } => RawView::Added(id@),
            RawEvent::KWinWindowRemoved { id } => RawView::Removed(id@),
            RawEvent::KWinActiveWindowChanged { id } => RawView::Activated(opt_text(id)),
        }
    }
}

/// The views of a list of raw events.
pub open spec fn raw_views(v: Seq<RawEvent>) -> Seq<RawView> {
    Seq::new(v.len(), |i: int| v[i]@)
}

/// Appending an event appends its view.
pub broadcast proof fn lemma_raw_push(v: Seq<RawEvent>, e: RawEvent)
    ensures
        #[trigger] raw_views(v.push(e)) == raw_views(v).push(e@),
{
    assert(raw_views(v.push(e)) =~= raw_views(v).push(e@));
}

/// The event that a push of the resident script stands for. A push without an
/// identifier or of another type stands for none.
pub open spec fn pushed(value: Json) -> Option<RawView> {
    match (value.str_of("event"@), value.str_of("id"@)) {
        (Some(kind), Some(id)) => if kind == "windowOpened"@ {
            Some(RawView::Added(id))
        } else if kind == "windowClosed"@ {
            Some(RawView::Removed(id))
        } else if kind == "windowFocused"@ {
            Some(RawView::Activated(Some(id)))
        } else {
            None
        },
        _ => None,
    }
}

/// The event that a push of the resident script stands for.
pub fn map_raw(value: &Json) -> (r: Option<RawEvent>)
    ensures
        crate::types::opt_view(r) == pushed(*value),
{
    let kind = match value.get_str("event") {
        Some(k) => k,
        None => return None,
    };
    let id = match value.get_str("id") {
        Some(i) => owned(i),
        None => return None,
    };
    if same(kind, "windowOpened") {
        Some(RawEvent::KWinWindowAdded { id })
    } else if same(kind, "windowClosed") {
        Some(RawEvent::KWinWindowRemoved { id })
    } else if same(kind, "windowFocused") {
        Some(RawEvent::KWinActiveWindowChanged { id: Some(id) })
    } else {
        None
    }
}

} // verus!
