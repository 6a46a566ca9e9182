//! Classified lines, and the mathematical model the contracts speak of.

use vstd::prelude::*;

verus! {

/// One classified line of a comparison between two snapshots.
#[derive(Clone, Debug, PartialEq, Eq)]
pub enum DiffEvent {
    /// The line stands in both snapshots.
    Same(String),
    /// The line stands in the newer snapshot only.
    Add(String),
    /// The line stands in the older snapshot only.
    Del(String),
}

/// The model of a [`DiffEvent`]: the same tag over the line's characters.
pub enum EventView {
    Same(Seq<char>),
    Add(Seq<char>),
    Del(Seq<char>),
}

impl EventView {
    /// The text the event carries.
    pub open spec fn line(self) -> Seq<char> {
        match self {
            EventView::Same(l) => l,
            EventView::Add(l) => l,
            EventView::Del(l) => l,
        }
    }
}

impl View for DiffEvent {
    type V = EventView;

    open spec fn view(&self) -> EventView {
        match self {
            DiffEvent::Same(l) => EventView::Same(l@),
            DiffEvent::Add(l) => EventView::Add(l@),
            DiffEvent::Del(l) => EventView::Del(l@),
        }
    }
}

/// The model of a snapshot: each line as its sequence of characters.
pub open spec fn lines_view(lines: Seq<String>) -> Seq<Seq<char>> {
    lines.map_values(|l: String| l@)
}

/// The model of an event list.
pub open spec fn events_view(events: Seq<DiffEvent>) -> Seq<EventView> {
    events.map_values(|e: DiffEvent| e@)
}

/// The lines that an event list attributes to the older snapshot: those of
/// its `Same` and `Del` events, in event order.
pub open spec fn old_side(events: Seq<EventView>) -> Seq<Seq<char>>
    decreases events.len(),
{
    if events.len() == 0 {
        Seq::empty()
    } else {
        match events[0] {
            EventView::Add(_) => old_side(events.drop_first()),
            EventView::Same(l) => seq![l] + old_side(events.drop_first()),
            EventView::Del(l) => seq![l] + old_side(events.drop_first()),
        }
    }
}

/// The lines that an event list attributes to the newer snapshot: those of
/// its `Same` and `Add` events, in event order.
pub open spec fn new_side(events: Seq<EventView>) -> Seq<Seq<char>>
    decreases events.len(),
{
    if events.len() == 0 {
        Seq::empty()
    } else {
        match events[0] {
            EventView::Del(_) => new_side(events.drop_first()),
            EventView::Same(l) => seq![l] + new_side(events.drop_first()),
            EventView::Add(l) => seq![l] + new_side(events.drop_first()),
        }
    }
}

impl DiffEvent {
    /// The line the event carries.
    pub fn line(&self) -> (l: &String)
        ensures
            l@ == self@.line(),
    {
        match self {
            DiffEvent::Same(l) => l,
            DiffEvent::Add(l) => l,
            DiffEvent::Del(l) => l,
        }
    }

    /// Whether the line is unchanged.
    pub fn is_same(&self) -> (b: bool)
        ensures
            b == (self@ is Same),
    {
        match self {
            DiffEvent::Same(_) => true,
            _ => false,
        }
    }

    /// Whether the line was added.
    pub fn is_add(&self) -> (b: bool)
        ensures
            b == (self@ is Add),
    {
        match self {
            DiffEvent::Add(_) => true,
            _ => false,
        }
    }

    /// Whether the line was removed.
    pub fn is_del(&self) -> (b: bool)
        ensures
            b == (self@ is Del),
    {
        match self {
            DiffEvent::Del(_) => true,
            _ => false,
        }
    }
}

} // verus!
