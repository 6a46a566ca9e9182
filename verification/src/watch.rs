//! The watch loop's decisions: whether a capture is reported, and which
//! snapshot the next capture is compared with.

use vstd::prelude::*;
use crate::engine::{diff, spec_diff};
use crate::event::{DiffEvent, EventView, events_view, lines_view};
use crate::snapshot::same_lines;

verus! {

/// How the reference snapshot moves from tick to tick.
#[derive(Clone, Copy, Debug, PartialEq, Eq)]
pub enum BaselineMode {
    /// Each capture that differs becomes the reference for the next one.
    Rolling,
    /// The first capture stays the reference for good.
    Permanent,
}

/// What a tick reports: nothing for a capture equal to the reference, the
/// diff from the reference to the capture otherwise.
pub open spec fn report_for(reference: Seq<Seq<char>>, capture: Seq<Seq<char>>) -> Option<
    Seq<EventView>,
> {
    if capture == reference {
        None
    } else {
        Some(spec_diff(reference, capture))
    }
}

/// The reference after a tick that saw `capture`.
pub open spec fn next_reference(
    mode: BaselineMode,
    reference: Seq<Seq<char>>,
    capture: Seq<Seq<char>>,
) -> Seq<Seq<char>> {
    match mode {
        BaselineMode::Rolling => if capture == reference {
            reference
        } else {
            capture
        },
        BaselineMode::Permanent => reference,
    }
}

/// The reference after a watcher started on `first` has seen `captures`,
/// one per tick.
pub open spec fn reference_after(
    mode: BaselineMode,
    first: Seq<Seq<char>>,
    captures: Seq<Seq<Seq<char>>>,
) -> Seq<Seq<char>>
    decreases captures.len(),
{
    if captures.len() == 0 {
        first
    } else {
        next_reference(mode, reference_after(mode, first, captures.drop_last()), captures.last())
    }
}

/// What the tick that sees `captures[k]` reports, after the ticks before it.
pub open spec fn report_at(
    mode: BaselineMode,
    first: Seq<Seq<char>>,
    captures: Seq<Seq<Seq<char>>>,
    k: int,
) -> Option<Seq<EventView>> {
    report_for(reference_after(mode, first, captures.take(k)), captures[k])
}

/// In rolling mode the reference is always the latest capture, so every
/// tick after the first is compared with the tick just before it.
pub proof fn lemma_rolling_follows_latest(
    first: Seq<Seq<char>>,
    captures: Seq<Seq<Seq<char>>>,
    k: int,
)
    requires
        1 <= k < captures.len(),
    ensures
        reference_after(BaselineMode::Rolling, first, captures.take(k)) == captures[k - 1],
        report_at(BaselineMode::Rolling, first, captures, k) == report_for(
            captures[k - 1],
            captures[k],
        ),
{
    assert(captures.take(k).last() == captures[k - 1]);
}

/// In permanent mode the reference never moves, so every tick is compared
/// with the first capture.
pub proof fn lemma_permanent_keeps_first(
    first: Seq<Seq<char>>,
    captures: Seq<Seq<Seq<char>>>,
    k: int,
)
    requires
        0 <= k < captures.len(),
    ensures
        reference_after(BaselineMode::Permanent, first, captures.take(k)) == first,
        report_at(BaselineMode::Permanent, first, captures, k) == report_for(first, captures[k]),
    decreases k,
{
    if k > 0 {
        lemma_permanent_keeps_first(first, captures, k - 1);
        assert(captures.take(k).drop_last() =~= captures.take(k - 1));
    }
}

/// The state of a watch: the mode it was started in and the snapshot that
/// the next capture is compared with.
pub struct Watcher {
    mode: BaselineMode,
    baseline: Vec<String>,
}

impl Watcher {
    /// The mode the watcher was started in.
    pub closed spec fn spec_mode(&self) -> BaselineMode {
        self.mode
    }

    /// The lines of the current reference snapshot.
    pub closed spec fn reference(&self) -> Seq<Seq<char>> {
        lines_view(self.baseline@)
    }

    /// Starts a watch whose reference is the first capture.
    pub fn new(mode: BaselineMode, first: Vec<String>) -> (watcher: Watcher)
        ensures
            watcher.spec_mode() == mode,
            watcher.reference() == lines_view(first@),
    {
        Watcher { mode, baseline: first }
    }

    /// The mode the watcher was started in.
    pub fn mode(&self) -> (mode: BaselineMode)
        ensures
            mode == self.spec_mode(),
    {
        self.mode
    }

    /// The current reference snapshot.
    pub fn baseline(&self) -> (lines: &Vec<String>)
        ensures
            lines_view(lines@) == self.reference(),
    {
        &self.baseline
    }

    /// Handles one tick. A capture equal to the reference is passed over in
    /// silence, without a diff being computed. Any other capture is reported
    /// as its diff from the reference, and in rolling mode becomes the new
    /// reference. The mode never changes.
    pub fn observe(&mut self, capture: Vec<String>) -> (report: Option<Vec<DiffEvent>>)
        ensures
            final(self).spec_mode() == old(self).spec_mode(),
            final(self).reference() == next_reference(
                old(self).spec_mode(),
                old(self).reference(),
                lines_view(capture@),
            ),
            match report {
                Some(events) => report_for(old(self).reference(), lines_view(capture@)) == Some(
                    events_view(events@),
                ),
                None => report_for(old(self).reference(), lines_view(capture@)).is_none(),
            },
    {
        if same_lines(&self.baseline, &capture) {
            None
        } else {
            let events = diff(&self.baseline, &capture);
            match self.mode {
                BaselineMode::Rolling => {
                    self.baseline = capture;
                },
                BaselineMode::Permanent => {},
            }
            Some(events)
        }
    }
}

} // verus!
