//! What the thread that shows imported frames does next.
use crate::schedule::{Schedule, HOTPLUG_INTERVAL};
use crate::topology::DisplayInfo;
use vstd::prelude::*;

verus! {

/// What the thread is asked to do.
pub enum LoopAction {
    /// Give back the frames that were replaced.
    ReleaseQueued,
    /// Find out whether the queue is closed.
    CheckClosed,
    /// Give back the frame that waits, since it will not be shown.
    ReleasePending,
    /// Give back the frames that were replaced, for the last time.
    ReleaseRest,
    /// Look at the display.
    Scan,
    /// Take the frame that waits.
    TakePending,
    /// Show the frame that was taken.
    Submit,
    /// Tell the listener why the display is gone, and drop it.
    Disconnect(String),
    /// Connect to a display, and tell the listener if there is one.
    Connect,
    /// Wait for something to do.
    Wait,
    Stop,
}

/// How the action ended. A `None` or `false` stands for a queue that cannot be used any more.
pub enum LoopEvent {
    Released(bool),
    Closed(Option<bool>),
    PendingReleased(bool),
    RestReleased,
    Scanned(Result<DisplayInfo, String>),
    /// Whether there was a frame.
    Taken(Option<bool>),
    Submitted(Result<(), String>),
    Disconnected,
    Connected(Option<DisplayInfo>),
    Waited,
}

impl LoopAction {
    /// The action ends this way.
    pub open spec fn ends_with(self, event: LoopEvent) -> bool {
        match self {
            LoopAction::ReleaseQueued => event is Released,
            LoopAction::CheckClosed => event is Closed,
            LoopAction::ReleasePending => event is PendingReleased,
            LoopAction::ReleaseRest => event is RestReleased,
            LoopAction::Scan => event is Scanned,
            LoopAction::TakePending => event is Taken,
            LoopAction::Submit => event is Submitted,
            LoopAction::Disconnect(_) => event is Disconnected,
            LoopAction::Connect => event is Connected,
            LoopAction::Wait => event is Waited,
            LoopAction::Stop => false,
        }
    }
}

/// The thread's own state.
pub struct DisplayLoop {
    /// The display that is connected.
    pub info: Option<DisplayInfo>,
    pub schedule: Schedule,
    /// What is being done.
    pub action: LoopAction,
}

/// Why the thread gives up a display that it scanned, if it does.
pub open spec fn scan_complaint(known: DisplayInfo, found: Result<DisplayInfo, String>) -> Option<
    Seq<char>,
> {
    match found {
        Ok(info) => if info.same_as(known) {
            None
        } else {
            Some("display topology changed"@)
        },
        Err(reason) => Some(reason@),
    }
}

impl DisplayLoop {
    /// The display is in use only while one is connected.
    pub open spec fn wf(self) -> bool {
        &&& (self.action is Scan || self.action is TakePending || self.action is Submit
            || self.action is Disconnect) ==> self.info is Some
        &&& self.action is Connect ==> self.info is None
    }

    pub open spec fn accepts(self, event: LoopEvent) -> bool {
        self.action.ends_with(event)
    }

    /// Whether the event is one that the current action ends with.
    pub fn expects(&self, event: &LoopEvent) -> (r: bool)
        ensures
            r == self.accepts(*event),
    {
        match (&self.action, event) {
            (LoopAction::ReleaseQueued, LoopEvent::Released(_)) => true,
            (LoopAction::CheckClosed, LoopEvent::Closed(_)) => true,
            (LoopAction::ReleasePending, LoopEvent::PendingReleased(_)) => true,
            (LoopAction::ReleaseRest, LoopEvent::RestReleased) => true,
            (LoopAction::Scan, LoopEvent::Scanned(_)) => true,
            (LoopAction::TakePending, LoopEvent::Taken(_)) => true,
            (LoopAction::Submit, LoopEvent::Submitted(_)) => true,
            (LoopAction::Disconnect(_), LoopEvent::Disconnected) => true,
            (LoopAction::Connect, LoopEvent::Connected(_)) => true,
            (LoopAction::Wait, LoopEvent::Waited) => true,
            _ => false,
        }
    }

    /// Starts with the display that was found at `now`, if any.
    pub fn new(info: Option<DisplayInfo>, now: u64) -> (r: DisplayLoop)
        requires
            Schedule::clock_fits(now),
        ensures
            r.info == info,
            r.schedule.next_connect_attempt == now,
            r.schedule.next_hotplug_check == now + HOTPLUG_INTERVAL,
            r.schedule.wf(now),
            r.action is ReleaseQueued,
            r.wf(),
    {
        DisplayLoop { info, schedule: Schedule::new(now), action: LoopAction::ReleaseQueued }
    }

    /// `self` with another action.
    pub open spec fn doing(self, action: LoopAction) -> DisplayLoop {
        DisplayLoop { action, ..self }
    }

    /// The event, at `now`, leads from `self` to `after`.
    pub open spec fn leads_to(self, event: LoopEvent, now: u64, after: DisplayLoop) -> bool {
        match event {
            // Frames that were replaced go back before anything else is done.
            LoopEvent::Released(usable) => after == self.doing(
                if usable {
                    LoopAction::CheckClosed
                } else {
                    LoopAction::Stop
                },
            ),
            // A closed queue is emptied. An open one is served: a display that is connected is
            // looked at when that is due, and given frames otherwise; one that is not is
            // connected to when that is due.
            LoopEvent::Closed(None) => after == self.doing(LoopAction::Stop),
            LoopEvent::Closed(Some(true)) => after == self.doing(LoopAction::ReleasePending),
            LoopEvent::Closed(Some(false)) => after == self.doing(
                if self.info is Some {
                    if now >= self.schedule.next_hotplug_check {
                        LoopAction::Scan
                    } else {
                        LoopAction::TakePending
                    }
                } else if now >= self.schedule.next_connect_attempt {
                    LoopAction::Connect
                } else {
                    LoopAction::Wait
                },
            ),
            LoopEvent::PendingReleased(usable) => after == self.doing(
                if usable {
                    LoopAction::ReleaseRest
                } else {
                    LoopAction::Stop
                },
            ),
            LoopEvent::RestReleased => after == self.doing(LoopAction::Stop),
            // A display that is no longer what it was is given up.
            LoopEvent::Scanned(found) => match scan_complaint(self.info->0, found) {
                None => after == (DisplayLoop {
                    schedule: self.schedule.checked_at(now),
                    ..self.doing(LoopAction::TakePending)
                }),
                Some(reason) => after.gives_up(self, reason),
            },
            LoopEvent::Taken(None) => after == self.doing(LoopAction::Stop),
            LoopEvent::Taken(Some(true)) => after == self.doing(LoopAction::Submit),
            LoopEvent::Taken(Some(false)) => after == self.doing(LoopAction::Wait),
            // So is one that did not take a frame.
            LoopEvent::Submitted(Ok(())) => after == self.doing(LoopAction::ReleaseQueued),
            LoopEvent::Submitted(Err(reason)) => after.gives_up(self, reason@),
            LoopEvent::Disconnected => after == (DisplayLoop {
                info: None,
                schedule: self.schedule.lost_at(now),
                ..self.doing(LoopAction::ReleaseQueued)
            }),
            LoopEvent::Connected(Some(info)) => after == (DisplayLoop {
                info: Some(info),
                schedule: self.schedule.checked_at(now),
                ..self.doing(LoopAction::ReleaseQueued)
            }),
            LoopEvent::Connected(None) => after == (DisplayLoop {
                schedule: self.schedule.failed_at(now),
                ..self.doing(LoopAction::Wait)
            }),
            LoopEvent::Waited => after == self.doing(LoopAction::ReleaseQueued),
        }
    }

    /// `self` is `before`, but about to give up its display.
    pub open spec fn gives_up(self, before: DisplayLoop, reason: Seq<char>) -> bool {
        &&& self.action matches LoopAction::Disconnect(text) && text@ == reason
        &&& self == before.doing(self.action)
    }

    /// Decides what is done after an action that ended with `event` at `now`.
    pub fn step(&mut self, event: LoopEvent, now: u64)
        requires
            old(self).wf(),
            old(self).accepts(event),
            Schedule::clock_fits(now),
        ensures
            old(self).leads_to(event, now, *final(self)),
            final(self).wf(),
    {
        self.action =
        match event {
            LoopEvent::Released(usable) => if usable {
                LoopAction::CheckClosed
            } else {
                LoopAction::Stop
            },
            LoopEvent::Closed(None) => LoopAction::Stop,
            LoopEvent::Closed(Some(true)) => LoopAction::ReleasePending,
            LoopEvent::Closed(Some(false)) => if self.info.is_some() {
                if self.schedule.hotplug_check_is_due(now) {
                    LoopAction::Scan
                } else {
                    LoopAction::TakePending
                }
            } else if self.schedule.connect_attempt_is_due(now) {
                LoopAction::Connect
            } else {
                LoopAction::Wait
            },
            LoopEvent::PendingReleased(usable) => if usable {
                LoopAction::ReleaseRest
            } else {
                LoopAction::Stop
            },
            LoopEvent::RestReleased => LoopAction::Stop,
            LoopEvent::Scanned(Ok(found)) => {
                let same = match &self.info {
                    Some(known) => found.is_same(known),
                    None => false,
                };
                if same {
                    self.schedule.display_seen(now);
                    LoopAction::TakePending
                } else {
                    LoopAction::Disconnect("display topology changed".to_owned())
                }
            },
            LoopEvent::Scanned(Err(reason)) => LoopAction::Disconnect(reason),
            LoopEvent::Taken(None) => LoopAction::Stop,
            LoopEvent::Taken(Some(true)) => LoopAction::Submit,
            LoopEvent::Taken(Some(false)) => LoopAction::Wait,
            LoopEvent::Submitted(Ok(())) => LoopAction::ReleaseQueued,
            LoopEvent::Submitted(Err(reason)) => LoopAction::Disconnect(reason),
            LoopEvent::Disconnected => {
                self.info = None;
                self.schedule.display_lost(now);
                LoopAction::ReleaseQueued
            },
            LoopEvent::Connected(Some(info)) => {
                self.info = Some(info);
                self.schedule.display_seen(now);
                LoopAction::ReleaseQueued
            },
            LoopEvent::Connected(None) => {
                self.schedule.connect_failed(now);
                LoopAction::Wait
            },
            LoopEvent::Waited => LoopAction::ReleaseQueued,
        };
    }

    /// How long the thread may wait.
    pub fn timeout(&self, now: u64) -> (r: u64)
        ensures
            r == self.schedule.spec_timeout(self.info is Some, now),
    {
        self.schedule.timeout(self.info.is_some(), now)
    }
}

/// What the listener is told when there is no display at the start.
pub fn waiting_reason(reason: Option<String>) -> (r: String)
    ensures
        r@ == (match reason {
            Some(text) => text@,
            None => "display unavailable"@,
        }),
{
    match reason {
        Some(text) => text,
        None => "display unavailable".to_owned(),
    }
}

/// A thread at work: the states it went through, and the event and the time of each step.
pub ghost struct LoopRun {
    pub states: Seq<DisplayLoop>,
    pub events: Seq<(LoopEvent, u64)>,
}

impl LoopRun {
    /// Each step is one that the thread takes, and time does not run backwards.
    pub open spec fn is_run(self) -> bool {
        &&& self.states.len() == self.events.len() + 1
        &&& self.states[0].wf()
        &&& forall|i: int|
            0 <= i < self.events.len() ==> self.steps(i)
        &&& forall|i: int, j: int|
            0 <= i <= j < self.events.len() ==> (#[trigger] self.events[i]).1 <= (
            #[trigger] self.events[j]).1
    }

    pub open spec fn steps(self, i: int) -> bool {
        let (event, now) = self.events[i];
        self.states[i].accepts(event) && self.states[i].leads_to(event, now, self.states[i + 1])
            && self.states[i + 1].wf() && Schedule::clock_fits(now)
    }
}

/// The thread stops only when the queue is closed or cannot be used any more.
pub proof fn stops_only_when_closed(run: LoopRun, i: int)
    requires
        run.is_run(),
        0 <= i < run.events.len(),
        run.states[i + 1].action is Stop,
    ensures
        match run.events[i].0 {
            LoopEvent::RestReleased => true,
            LoopEvent::Released(usable) => !usable,
            LoopEvent::PendingReleased(usable) => !usable,
            LoopEvent::Closed(answer) => answer is None,
            LoopEvent::Taken(answer) => answer is None,
            _ => false,
        },
{
    assert(run.steps(i));
}

/// Before the thread stops on a closed queue, it gives back the frame that waits and then the
/// frames that were replaced.
pub proof fn closed_queue_is_emptied(run: LoopRun, i: int)
    requires
        run.is_run(),
        0 <= i < run.events.len(),
        run.events[i].0 is RestReleased,
        run.states[0].action is ReleaseQueued,
    ensures
        i >= 3,
        run.events[i - 1].0 == LoopEvent::PendingReleased(true),
        run.events[i - 2].0 == LoopEvent::Closed(Some(true)),
        run.events[i - 3].0 == LoopEvent::Released(true),
        run.states[i + 1].action is Stop,
{
    assert(run.steps(i));
    assert(run.states[i].action is ReleaseRest);
    assert(run.steps(i - 1));
    assert(run.states[i - 1].action is ReleasePending);
    assert(run.steps(i - 2));
    assert(run.states[i - 2].action is CheckClosed);
    assert(run.steps(i - 3));
}

/// The thread never sleeps through a check or an attempt: at every time nothing lies further
/// ahead than its interval.
pub proof fn schedule_is_kept(run: LoopRun, i: int)
    requires
        run.is_run(),
        run.events.len() > 0 ==> run.states[0].schedule.wf(run.events[0].1),
        0 <= i < run.events.len(),
    ensures
        run.states[i + 1].schedule.wf(run.events[i].1),
    decreases i,
{
    assert(run.steps(i));
    if i > 0 {
        schedule_is_kept(run, i - 1);
        assert(run.events[i - 1].1 <= run.events[i].1);
    }
}

/// After a display was lost another one is looked for at once, if the queue is still open.
pub proof fn lost_display_is_looked_for(run: LoopRun, i: int)
    requires
        run.is_run(),
        0 <= i,
        i + 2 < run.events.len(),
        run.events[i].0 is Disconnected,
        run.events[i + 1].0 == LoopEvent::Released(true),
        run.events[i + 2].0 == LoopEvent::Closed(Some(false)),
    ensures
        run.states[i + 3].action is Connect,
{
    assert(run.steps(i));
    assert(run.steps(i + 1));
    assert(run.steps(i + 2));
    assert(run.events[i].1 <= run.events[i + 2].1);
}

/// A frame is taken only for a display that is there and not overdue for a check.
pub proof fn frames_go_to_a_checked_display(run: LoopRun, i: int)
    requires
        run.is_run(),
        0 <= i < run.events.len(),
        run.states[i + 1].action is TakePending,
    ensures
        run.states[i + 1].info is Some,
        run.events[i].1 < run.states[i + 1].schedule.next_hotplug_check,
{
    assert(run.steps(i));
}

/// What the thread does after each event. A closed queue is emptied first. A display that is
/// connected is looked at once that is due; otherwise, and where it was found unchanged, a frame
/// is taken, and shown if there is one. Without a display the thread connects once that is due.
pub proof fn thread_does_what_is_due(
    before: DisplayLoop,
    event: LoopEvent,
    now: u64,
    after: DisplayLoop,
)
    requires
        before.wf(),
        before.accepts(event),
        before.leads_to(event, now, after),
    ensures
        ({
            let open = event == LoopEvent::Closed(Some(false));
            let check_due = now >= before.schedule.next_hotplug_check;
            let attempt_due = now >= before.schedule.next_connect_attempt;
            &&& after.action is Scan <==> open && before.info is Some && check_due
            &&& after.action is TakePending <==> open && before.info is Some && !check_due || (
            event matches LoopEvent::Scanned(Ok(found)) && found.same_as(before.info->0))
            &&& after.action is Submit <==> event == LoopEvent::Taken(Some(true))
            &&& after.action is Connect <==> open && before.info is None && attempt_due
            &&& after.action is Wait <==> open && before.info is None && !attempt_due || event
                == LoopEvent::Taken(Some(false)) || event == LoopEvent::Connected(None)
            &&& after.action is CheckClosed <==> event == LoopEvent::Released(true)
            &&& after.action is ReleasePending <==> event == LoopEvent::Closed(Some(true))
            &&& after.action is ReleaseRest <==> event == LoopEvent::PendingReleased(true)
            &&& after.action is ReleaseQueued <==> (event matches LoopEvent::Submitted(result)
                && result is Ok) || event is Disconnected || (event is Connected && event
                != LoopEvent::Connected(None)) || event is Waited
            &&& after.action is Stop <==> event == LoopEvent::Released(false) || event
                == LoopEvent::Closed(None) || event == LoopEvent::PendingReleased(false)
                || event is RestReleased || event == LoopEvent::Taken(None)
        }),
{
}

/// A display is given up where looking at it failed, where something about it has changed, and
/// where it did not take a frame; and the listener is told which.
pub proof fn displays_are_given_up_for_a_reason(
    before: DisplayLoop,
    event: LoopEvent,
    now: u64,
    after: DisplayLoop,
)
    requires
        before.wf(),
        before.accepts(event),
        before.leads_to(event, now, after),
    ensures
        match event {
            LoopEvent::Scanned(Err(reason)) | LoopEvent::Submitted(Err(reason)) => after.action
                matches LoopAction::Disconnect(text) && text@ == reason@,
            LoopEvent::Scanned(Ok(found)) => after.action is Disconnect <==> !found.same_as(
                before.info->0,
            ),
            _ => !(after.action is Disconnect),
        },
        event matches LoopEvent::Scanned(Ok(found)) ==> (after.action matches
            LoopAction::Disconnect(text) ==> text@ == "display topology changed"@),
{
}

/// The display that is known changes only when one is lost or connected, and the times only with
/// what they are about: a display that was seen is looked at again after 750 milliseconds, an
/// attempt that failed is repeated after 250, and one is made at once after a loss.
pub proof fn events_change_what_they_are_about(
    before: DisplayLoop,
    event: LoopEvent,
    now: u64,
    after: DisplayLoop,
)
    requires
        before.wf(),
        before.accepts(event),
        before.leads_to(event, now, after),
        Schedule::clock_fits(now),
    ensures
        ({
            let seen = (event is Scanned && after.action is TakePending) || (event is Connected
                && event != LoopEvent::Connected(None));
            &&& event is Disconnected ==> after.info is None
            &&& event matches LoopEvent::Connected(Some(info)) ==> after.info == Some(info)
            &&& !(event is Disconnected) && !(event is Connected) ==> after.info == before.info
            &&& event == LoopEvent::Connected(None) ==> after.info == before.info
            &&& seen ==> after.schedule.next_hotplug_check == now + 750_000_000
            &&& !seen ==> after.schedule.next_hotplug_check == before.schedule.next_hotplug_check
            &&& event is Disconnected ==> after.schedule.next_connect_attempt == now
            &&& event == LoopEvent::Connected(None) ==> after.schedule.next_connect_attempt == now
                + 250_000_000
            &&& !(event is Disconnected) && event != LoopEvent::Connected(None)
                ==> after.schedule.next_connect_attempt == before.schedule.next_connect_attempt
        }),
{
}

/// A scan finds nothing to complain about exactly where everything that is known of the display
/// was found again.
pub proof fn scans_complain_of_changes(known: DisplayInfo, found: Result<DisplayInfo, String>)
    ensures
        scan_complaint(known, found) is None <==> (found matches Ok(info) && info.card_path@
            == known.card_path@ && info.connector_id == known.connector_id && info.connector_type@
            == known.connector_type@ && info.crtc_id == known.crtc_id && info.plane_id
            == known.plane_id && info.mode == known.mode),
        found matches Err(reason) ==> scan_complaint(known, found) == Some(reason@),
        found is Ok && scan_complaint(known, found) is Some ==> scan_complaint(known, found)->0
            == "display topology changed"@,
{
}

/// Each action ends with an event of its own kind, and with no other; a thread that stops does
/// nothing more.
pub proof fn actions_end_in_their_own_way(action: LoopAction, event: LoopEvent)
    ensures
        event is Released ==> (action.ends_with(event) <==> action is ReleaseQueued),
        event is Closed ==> (action.ends_with(event) <==> action is CheckClosed),
        event is PendingReleased ==> (action.ends_with(event) <==> action is ReleasePending),
        event is RestReleased ==> (action.ends_with(event) <==> action is ReleaseRest),
        event is Scanned ==> (action.ends_with(event) <==> action is Scan),
        event is Taken ==> (action.ends_with(event) <==> action is TakePending),
        event is Submitted ==> (action.ends_with(event) <==> action is Submit),
        event is Disconnected ==> (action.ends_with(event) <==> action is Disconnect),
        event is Connected ==> (action.ends_with(event) <==> action is Connect),
        event is Waited ==> (action.ends_with(event) <==> action is Wait),
        action is Stop ==> !action.ends_with(event),
{
}

} // verus!
