//! What the thread that shows raw frames and the state it shares with callers do together.
use crate::raw::{RawActiveDisplay, RawDisplayState};
use crate::raw_loop::{raw_scan_complaint, RawAction, RawEvent, RawRun};
use crate::topology::DisplayInfo;
use vstd::prelude::*;

verus! {

/// A thread at work, and the shared state before and after each of its steps. Between two steps
/// callers bring frames.
pub ghost struct RawHistory {
    pub run: RawRun,
    pub before: Seq<RawDisplayState>,
    pub after: Seq<RawDisplayState>,
}

/// The reason for which an event makes the thread give up its display, if it does.
pub open spec fn failure(event: RawEvent) -> Option<Seq<char>> {
    match event {
        RawEvent::Scanned(known, found) => raw_scan_complaint(known, found),
        RawEvent::KeptPlaced(Err(reason)) => Some(reason@),
        RawEvent::Committed(Err(reason)) => Some(reason@),
        _ => None,
    }
}

impl RawHistory {
    /// The frame that the thread took to write it to a buffer.
    pub open spec fn kept_frame(self, i: int) -> Vec<u8> {
        self.before[i - 1].spec_kept_frame()->0
    }

    /// What step `i` does to the shared state.
    pub open spec fn performs(self, i: int) -> bool {
        let (before, after) = (self.before[i], self.after[i]);
        match self.run.events[i].0 {
            RawEvent::Closed(closed) => closed == before.closed && after == before,
            RawEvent::Active(active) => active == (before.active is Some) && after == before,
            RawEvent::Scanned(known, _) => {
                &&& match (known, before.info) {
                    (Some(copy), Some(info)) => copy.same_as(info),
                    (None, None) => true,
                    _ => false,
                }
                &&& after == before
            },
            RawEvent::KeptTaken(some) => {
                &&& some == (before.spec_kept_frame() is Some)
                &&& after == before.spec_kept_frame_taken()
            },
            RawEvent::KeptPlaced(result) => exists|slot: usize| #[trigger]
                before.is_writable_slot(slot) && after == before.spec_kept_frame_done(
                    slot,
                    self.kept_frame(i),
                    result is Ok,
                ),
            RawEvent::CommitBegun(slot) => slot == before.spec_slot_to_commit() && after
                == before.spec_commit_begun(),
            RawEvent::Committed(result) => before.committing_slot is Some && after
                == before.spec_commit_done(result is Ok),
            RawEvent::Disconnected => after == before.spec_disconnected(),
            RawEvent::Connected(true) => exists|active: RawActiveDisplay, info: DisplayInfo|
                after == #[trigger] before.spec_connected(active, info),
            RawEvent::Connected(false) | RawEvent::Waited => after == before,
            RawEvent::Unusable => true,
        }
    }

    pub open spec fn is_history(self) -> bool {
        &&& self.run.is_run()
        &&& self.before.len() == self.run.events.len()
        &&& self.after.len() == self.run.events.len()
        &&& forall|i: int| 0 <= i < self.run.events.len() ==> self.performs(i)
        &&& forall|i: int|
            0 < i < self.run.events.len() ==> (#[trigger] self.after[i - 1]).callers_lead_to(
                self.before[i],
            )
    }
}

/// Each failure of a scan, an upload or a commit is followed by one message that the display is
/// gone, with the reason for it, and no such message comes otherwise. With the message the
/// display, what was known of it, and the slots are dropped, while a frame that was kept stays.
pub proof fn failures_disconnect_once(h: RawHistory, i: int)
    requires
        h.is_history(),
        0 <= i < h.run.events.len(),
    ensures
        failure(h.run.events[i].0) is Some <==> h.run.states[i + 1].action is Disconnect,
        h.run.states[i + 1].action matches RawAction::Disconnect(text) ==> failure(
            h.run.events[i].0,
        ) == Some(text@),
        h.run.events[i].0 is Disconnected <==> i > 0 && failure(h.run.events[i - 1].0) is Some,
        h.run.events[i].0 is Disconnected ==> {
            &&& h.after[i].active is None
            &&& h.after[i].info is None
            &&& h.after[i].pending_slot is None
            &&& h.after[i].committing_slot is None
            &&& h.after[i].disconnected_frame == h.before[i].disconnected_frame
            &&& h.run.states[i + 1].action is CheckClosed
        },
{
    assert(h.run.steps(i));
    assert(h.performs(i));
    if i > 0 {
        assert(h.run.steps(i - 1));
    }
}

/// A kept frame that could not be written is kept again. It is still kept when the display has
/// been given up, unless a caller brought a newer one meanwhile.
pub proof fn failed_frame_is_kept_again(h: RawHistory, i: int)
    requires
        h.is_history(),
        0 <= i < h.run.events.len(),
        h.run.events[i].0 matches RawEvent::KeptPlaced(result) && result is Err,
    ensures
        i > 0,
        h.run.events[i - 1].0 == RawEvent::KeptTaken(true),
        h.before[i - 1].disconnected_frame == Some(h.kept_frame(i)),
        h.after[i].disconnected_frame == Some(h.kept_frame(i)),
        h.after[i].pending_slot == h.before[i].pending_slot,
        i + 1 < h.run.events.len() ==> {
            &&& h.run.events[i + 1].0 is Disconnected
            &&& h.after[i + 1].active is None
            &&& h.after[i + 1].disconnected_frame == Some(h.kept_frame(i)) || (
            h.before[i + 1].pending_slot is Some && h.before[i + 1].disconnected_frame is None)
        },
{
    assert(h.run.steps(i));
    assert(h.performs(i));
    assert(h.run.states[i].action is PlaceKept);
    if i > 0 {
        assert(h.run.steps(i - 1));
        assert(h.performs(i - 1));
    }
    if i + 1 < h.run.events.len() {
        assert(h.run.steps(i + 1));
        assert(h.performs(i + 1));
        assert(h.after[i + 1 - 1].callers_lead_to(h.before[i + 1]));
    }
}

/// A frame that is kept when no display is connected is the one that is written first once one
/// is: connecting leaves it, and nothing waits in a buffer before it.
pub proof fn kept_frame_waits_for_the_display(h: RawHistory, i: int)
    requires
        h.is_history(),
        0 <= i < h.run.events.len(),
        h.run.events[i].0 == RawEvent::Connected(true),
    ensures
        h.after[i].active is Some,
        h.after[i].disconnected_frame == h.before[i].disconnected_frame,
        h.after[i].spec_kept_frame() == h.before[i].disconnected_frame,
{
    assert(h.performs(i));
}

} // verus!
