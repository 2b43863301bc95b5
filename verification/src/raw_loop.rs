//! What the thread that shows raw frames does next.
use crate::prime_loop::scan_complaint;
use crate::schedule::{Schedule, HOTPLUG_INTERVAL};
use crate::topology::DisplayInfo;
use vstd::prelude::*;

verus! {

/// What the thread is asked to do.
pub enum RawAction {
    /// Find out whether the display is closed.
    CheckClosed,
    /// Find out whether a display is connected.
    ReadActive,
    /// Look at the display.
    Scan,
    /// Take the frame that was kept while there was no display.
    TakeKept,
    /// Write that frame to a buffer.
    PlaceKept,
    /// Begin to commit the buffer that waits.
    BeginCommit,
    /// Commit the buffer.
    Commit(usize),
    /// Tell the listener why the display is gone, and drop it.
    Disconnect(String),
    /// Connect to a display, and tell the listener if there is one.
    Connect,
    /// Wait for something to do, with or without a display.
    Wait(bool),
    Stop,
}

/// How the action ended.
pub enum RawEvent {
    Closed(bool),
    Active(bool),
    /// What was known of the display and what was found.
    Scanned(Option<DisplayInfo>, Result<DisplayInfo, String>),
    /// Whether there was a frame.
    KeptTaken(bool),
    KeptPlaced(Result<(), String>),
    CommitBegun(Option<usize>),
    Committed(Result<(), String>),
    Disconnected,
    /// Whether there is a display now.
    Connected(bool),
    Waited,
    /// The shared state cannot be used any more.
    Unusable,
}

impl RawAction {
    /// The action ends this way.
    pub open spec fn ends_with(self, event: RawEvent) -> bool {
        match self {
            RawAction::CheckClosed => event is Closed || event is Unusable,
            RawAction::ReadActive => event is Active || event is Unusable,
            RawAction::Scan => event is Scanned || event is Unusable,
            RawAction::TakeKept => event is KeptTaken || event is Unusable,
            RawAction::PlaceKept => event is KeptPlaced || event is Unusable,
            RawAction::BeginCommit => event is CommitBegun || event is Unusable,
            RawAction::Commit(_) => event is Committed || event is Unusable,
            RawAction::Disconnect(_) => event is Disconnected,
            RawAction::Connect => event is Connected || event is Unusable,
            RawAction::Wait(_) => event is Waited,
            RawAction::Stop => false,
        }
    }
}

/// How the thread starts.
#[derive(Clone, Copy, PartialEq, Eq, Structural, Debug)]
pub enum RawStart {
    /// It does nothing at all.
    Return,
    /// It tells the listener that there is no display, and goes to work.
    Announce,
    Work,
}

/// How the thread starts, given what is known.
pub open spec fn spec_start(closed: Option<bool>, active: Option<bool>) -> RawStart {
    if closed == Some(true) {
        RawStart::Return
    } else if active == Some(false) {
        RawStart::Announce
    } else {
        RawStart::Work
    }
}

/// Decides how the thread starts. A `None` stands for an answer that could not be had.
pub fn start(closed: Option<bool>, active: Option<bool>) -> (r: RawStart)
    ensures
        r == (if closed == Some(true) {
            RawStart::Return
        } else if active == Some(false) {
            RawStart::Announce
        } else {
            RawStart::Work
        }),
        r == spec_start(closed, active),
{
    match (closed, active) {
        (Some(true), _) => RawStart::Return,
        (_, Some(false)) => RawStart::Announce,
        _ => RawStart::Work,
    }
}

/// The thread's own state.
pub struct RawLoop {
    pub schedule: Schedule,
    /// What is being done.
    pub action: RawAction,
}

/// Why the thread gives up a display that it scanned, if it does.
pub open spec fn raw_scan_complaint(
    known: Option<DisplayInfo>,
    found: Result<DisplayInfo, String>,
) -> Option<Seq<char>> {
    match (known, found) {
        (Some(info), _) => scan_complaint(info, found),
        (None, Ok(_)) => Some("display topology changed"@),
        (None, Err(reason)) => Some(reason@),
    }
}

impl RawLoop {
    pub open spec fn accepts(self, event: RawEvent) -> bool {
        self.action.ends_with(event)
    }

    /// Whether the event is one that the current action ends with.
    pub fn expects(&self, event: &RawEvent) -> (r: bool)
        ensures
            r == self.accepts(*event),
    {
        match (&self.action, event) {
            (RawAction::CheckClosed, RawEvent::Closed(_)) => true,
            (RawAction::ReadActive, RawEvent::Active(_)) => true,
            (RawAction::Scan, RawEvent::Scanned(_, _)) => true,
            (RawAction::TakeKept, RawEvent::KeptTaken(_)) => true,
            (RawAction::PlaceKept, RawEvent::KeptPlaced(_)) => true,
            (RawAction::BeginCommit, RawEvent::CommitBegun(_)) => true,
            (RawAction::Commit(_), RawEvent::Committed(_)) => true,
            (RawAction::Disconnect(_), RawEvent::Disconnected) => true,
            (RawAction::Connect, RawEvent::Connected(_)) => true,
            (RawAction::Wait(_), RawEvent::Waited) => true,
            (RawAction::Disconnect(_), _) => false,
            (RawAction::Wait(_), _) => false,
            (RawAction::Stop, _) => false,
            (_, RawEvent::Unusable) => true,
            _ => false,
        }
    }

    pub fn new(now: u64) -> (r: RawLoop)
        requires
            Schedule::clock_fits(now),
        ensures
            r.schedule.next_connect_attempt == now,
            r.schedule.next_hotplug_check == now + HOTPLUG_INTERVAL,
            r.schedule.wf(now),
            r.action is CheckClosed,
    {
        RawLoop { schedule: Schedule::new(now), action: RawAction::CheckClosed }
    }

    /// `self` with another action.
    pub open spec fn doing(self, action: RawAction) -> RawLoop {
        RawLoop { action, ..self }
    }

    /// `self` is `before`, but about to give up its display.
    pub open spec fn gives_up(self, before: RawLoop, reason: Seq<char>) -> bool {
        &&& self.action matches RawAction::Disconnect(text) && text@ == reason
        &&& self == before.doing(self.action)
    }

    /// The event, at `now`, leads from `self` to `after`.
    pub open spec fn leads_to(self, event: RawEvent, now: u64, after: RawLoop) -> bool {
        match event {
            RawEvent::Unusable => after == self.doing(RawAction::Stop),
            RawEvent::Closed(closed) => after == self.doing(
                if closed {
                    RawAction::Stop
                } else {
                    RawAction::ReadActive
                },
            ),
            // A display that is connected is looked at when that is due, and given frames
            // otherwise; one that is not is connected to when that is due.
            RawEvent::Active(true) => after == self.doing(
                if now >= self.schedule.next_hotplug_check {
                    RawAction::Scan
                } else {
                    RawAction::TakeKept
                },
            ),
            RawEvent::Active(false) => after == self.doing(
                if now >= self.schedule.next_connect_attempt {
                    RawAction::Connect
                } else {
                    RawAction::Wait(false)
                },
            ),
            // A display that is no longer what it was is given up.
            RawEvent::Scanned(known, found) => match raw_scan_complaint(known, found) {
                None => after == (RawLoop {
                    schedule: self.schedule.checked_at(now),
                    action: RawAction::TakeKept,
                }),
                Some(reason) => after.gives_up(self, reason),
            },
            // The frame that was kept is written first, then whatever waits is shown.
            RawEvent::KeptTaken(some) => after == self.doing(
                if some {
                    RawAction::PlaceKept
                } else {
                    RawAction::BeginCommit
                },
            ),
            RawEvent::KeptPlaced(Ok(())) => after == self.doing(RawAction::BeginCommit),
            RawEvent::KeptPlaced(Err(reason)) => after.gives_up(self, reason@),
            RawEvent::CommitBegun(Some(slot)) => after == self.doing(RawAction::Commit(slot)),
            RawEvent::CommitBegun(None) => after == self.doing(RawAction::Wait(true)),
            // A display that takes a buffer is there.
            RawEvent::Committed(Ok(())) => after == (RawLoop {
                schedule: self.schedule.checked_at(now),
                action: RawAction::CheckClosed,
            }),
            RawEvent::Committed(Err(reason)) => after.gives_up(self, reason@),
            RawEvent::Disconnected => after == (RawLoop {
                schedule: self.schedule.lost_at(now),
                action: RawAction::CheckClosed,
            }),
            RawEvent::Connected(true) => after == (RawLoop {
                schedule: self.schedule.checked_at(now),
                action: RawAction::CheckClosed,
            }),
            RawEvent::Connected(false) => after == (RawLoop {
                schedule: self.schedule.failed_at(now),
                action: RawAction::Wait(false),
            }),
            RawEvent::Waited => after == self.doing(RawAction::CheckClosed),
        }
    }

    /// Decides what is done after an action that ended with `event` at `now`.
    pub fn step(&mut self, event: RawEvent, now: u64)
        requires
            old(self).accepts(event),
            Schedule::clock_fits(now),
        ensures
            old(self).leads_to(event, now, *final(self)),
    {
        self.action =
        match event {
            RawEvent::Unusable => RawAction::Stop,
            RawEvent::Closed(closed) => if closed {
                RawAction::Stop
            } else {
                RawAction::ReadActive
            },
            RawEvent::Active(true) => if self.schedule.hotplug_check_is_due(now) {
                RawAction::Scan
            } else {
                RawAction::TakeKept
            },
            RawEvent::Active(false) => if self.schedule.connect_attempt_is_due(now) {
                RawAction::Connect
            } else {
                RawAction::Wait(false)
            },
            RawEvent::Scanned(known, Ok(found)) => {
                let same = match &known {
                    Some(info) => found.is_same(info),
                    None => false,
                };
                if same {
                    self.schedule.display_seen(now);
                    RawAction::TakeKept
                } else {
                    RawAction::Disconnect("display topology changed".to_owned())
                }
            },
            RawEvent::Scanned(_, Err(reason)) => RawAction::Disconnect(reason),
            RawEvent::KeptTaken(some) => if some {
                RawAction::PlaceKept
            } else {
                RawAction::BeginCommit
            },
            RawEvent::KeptPlaced(Ok(())) => RawAction::BeginCommit,
            RawEvent::KeptPlaced(Err(reason)) => RawAction::Disconnect(reason),
            RawEvent::CommitBegun(Some(slot)) => RawAction::Commit(slot),
            RawEvent::CommitBegun(None) => RawAction::Wait(true),
            RawEvent::Committed(Ok(())) => {
                self.schedule.display_seen(now);
                RawAction::CheckClosed
            },
            RawEvent::Committed(Err(reason)) => RawAction::Disconnect(reason),
            RawEvent::Disconnected => {
                self.schedule.display_lost(now);
                RawAction::CheckClosed
            },
            RawEvent::Connected(true) => {
                self.schedule.display_seen(now);
                RawAction::CheckClosed
            },
            RawEvent::Connected(false) => {
                self.schedule.connect_failed(now);
                RawAction::Wait(false)
            },
            RawEvent::Waited => RawAction::CheckClosed,
        };
    }

    /// How long the thread may wait.
    pub fn timeout(&self, connected: bool, now: u64) -> (r: u64)
        ensures
            r == self.schedule.spec_timeout(connected, now),
    {
        self.schedule.timeout(connected, now)
    }
}

/// A thread at work: the states it went through, and the event and the time of each step.
pub ghost struct RawRun {
    pub states: Seq<RawLoop>,
    pub events: Seq<(RawEvent, u64)>,
}

impl RawRun {
    /// Each step is one that the thread takes, and time does not run backwards.
    pub open spec fn is_run(self) -> bool {
        &&& self.states.len() == self.events.len() + 1
        &&& self.states[0].action is CheckClosed
        &&& forall|i: int| 0 <= i < self.events.len() ==> self.steps(i)
        &&& forall|i: int, j: int|
            0 <= i <= j < self.events.len() ==> (#[trigger] self.events[i]).1 <= (
            #[trigger] self.events[j]).1
    }

    pub open spec fn steps(self, i: int) -> bool {
        let (event, now) = self.events[i];
        self.states[i].accepts(event) && self.states[i].leads_to(event, now, self.states[i + 1])
            && Schedule::clock_fits(now)
    }
}

/// The thread stops only when the display is closed or the shared state cannot be used any more.
pub proof fn raw_thread_stops_only_when_closed(run: RawRun, i: int)
    requires
        run.is_run(),
        0 <= i < run.events.len(),
        run.states[i + 1].action is Stop,
    ensures
        run.events[i].0 == RawEvent::Closed(true) || run.events[i].0 is Unusable,
{
    assert(run.steps(i));
}

/// Only the buffer that waited is committed.
pub proof fn only_waiting_buffers_are_committed(run: RawRun, i: int, slot: usize)
    requires
        run.is_run(),
        0 <= i < run.events.len(),
        run.states[i + 1].action == RawAction::Commit(slot),
    ensures
        run.events[i].0 == RawEvent::CommitBegun(Some(slot)),
        run.states[i].action is BeginCommit,
{
    assert(run.steps(i));
}

/// The frame that was kept is in its buffer before a buffer is committed: between asking for it
/// and committing nothing else happens.
pub proof fn kept_frame_goes_first(run: RawRun, i: int)
    requires
        run.is_run(),
        0 <= i < run.events.len(),
        run.states[i].action is BeginCommit,
    ensures
        i > 0,
        run.events[i - 1].0 == RawEvent::KeptTaken(false) || (run.events[i - 1].0 matches
            RawEvent::KeptPlaced(result) && result is Ok),
        run.events[i - 1].0 is KeptPlaced ==> i > 1 && run.events[i - 2].0 == RawEvent::KeptTaken(
            true,
        ),
{
    if i > 0 {
        assert(run.steps(i - 1));
        if i > 1 {
            assert(run.steps(i - 2));
        }
    }
}

/// At every time nothing lies further ahead than its interval.
pub proof fn raw_schedule_is_kept(run: RawRun, i: int)
    requires
        run.is_run(),
        run.events.len() > 0 ==> run.states[0].schedule.wf(run.events[0].1),
        0 <= i < run.events.len(),
    ensures
        run.states[i + 1].schedule.wf(run.events[i].1),
    decreases i,
{
    assert(run.steps(i));
    if i > 0 {
        raw_schedule_is_kept(run, i - 1);
        assert(run.events[i - 1].1 <= run.events[i].1);
    }
}

/// After a display was lost another one is looked for at once, unless the display is closed.
pub proof fn lost_raw_display_is_looked_for(run: RawRun, i: int)
    requires
        run.is_run(),
        0 <= i,
        i + 2 < run.events.len(),
        run.events[i].0 is Disconnected,
        run.events[i + 1].0 == RawEvent::Closed(false),
        run.events[i + 2].0 == RawEvent::Active(false),
    ensures
        run.states[i + 3].action is Connect,
{
    assert(run.steps(i));
    assert(run.steps(i + 1));
    assert(run.steps(i + 2));
    assert(run.events[i].1 <= run.events[i + 2].1);
}

/// What the thread does after each event. A display that is connected is looked at once that is
/// due; otherwise, and where it was found unchanged, the frame that was kept is written, and what
/// waits is committed. Without a display the thread connects once that is due.
pub proof fn raw_thread_does_what_is_due(before: RawLoop, event: RawEvent, now: u64, after: RawLoop)
    requires
        before.accepts(event),
        before.leads_to(event, now, after),
    ensures
        ({
            let check_due = now >= before.schedule.next_hotplug_check;
            let attempt_due = now >= before.schedule.next_connect_attempt;
            &&& after.action is ReadActive <==> event == RawEvent::Closed(false)
            &&& after.action is Scan <==> event == RawEvent::Active(true) && check_due
            &&& after.action is Connect <==> event == RawEvent::Active(false) && attempt_due
            &&& after.action is TakeKept <==> event == RawEvent::Active(true) && !check_due || (
            event matches RawEvent::Scanned(Some(known), Ok(found)) && found.same_as(known))
            &&& after.action is PlaceKept <==> event == RawEvent::KeptTaken(true)
            &&& after.action is BeginCommit <==> event == RawEvent::KeptTaken(false) || (
            event matches RawEvent::KeptPlaced(result) && result is Ok)
            &&& after.action matches RawAction::Commit(slot) ==> event == RawEvent::CommitBegun(
                Some(slot),
            )
            &&& event matches RawEvent::CommitBegun(Some(slot)) ==> after.action
                == RawAction::Commit(slot)
            &&& after.action == RawAction::Wait(true) <==> event == RawEvent::CommitBegun(None)
            &&& after.action == RawAction::Wait(false) <==> event == RawEvent::Active(false)
                && !attempt_due || event == RawEvent::Connected(false)
            &&& after.action is CheckClosed <==> (event matches RawEvent::Committed(result)
                && result is Ok) || event is Disconnected || event == RawEvent::Connected(true)
                || event is Waited
            &&& after.action is Stop <==> event == RawEvent::Closed(true) || event is Unusable
        }),
{
}

/// A display is given up where looking at it failed, where something about it has changed or
/// nothing was known of it, and where it did not take a frame; and the listener is told which.
pub proof fn raw_displays_are_given_up_for_a_reason(
    before: RawLoop,
    event: RawEvent,
    now: u64,
    after: RawLoop,
)
    requires
        before.accepts(event),
        before.leads_to(event, now, after),
    ensures
        match event {
            RawEvent::Scanned(_, Err(reason))
            | RawEvent::KeptPlaced(Err(reason))
            | RawEvent::Committed(Err(reason)) => after.action matches RawAction::Disconnect(text)
                && text@ == reason@,
            RawEvent::Scanned(known, Ok(found)) => after.action is Disconnect <==> !(known is Some
                && found.same_as(known->0)),
            _ => !(after.action is Disconnect),
        },
        event matches RawEvent::Scanned(_, Ok(found)) ==> (after.action matches
            RawAction::Disconnect(text) ==> text@ == "display topology changed"@),
{
}

/// The times change only with what they are about: a display that was seen or took a buffer is
/// looked at again after 750 milliseconds, an attempt that failed is repeated after 250, and one
/// is made at once after a loss.
pub proof fn raw_events_change_what_they_are_about(
    before: RawLoop,
    event: RawEvent,
    now: u64,
    after: RawLoop,
)
    requires
        before.accepts(event),
        before.leads_to(event, now, after),
        Schedule::clock_fits(now),
    ensures
        ({
            let seen = (event is Scanned && after.action is TakeKept) || event
                == RawEvent::Connected(true) || (event matches RawEvent::Committed(result)
                && result is Ok);
            &&& seen ==> after.schedule.next_hotplug_check == now + 750_000_000
            &&& !seen ==> after.schedule.next_hotplug_check == before.schedule.next_hotplug_check
            &&& event is Disconnected ==> after.schedule.next_connect_attempt == now
            &&& event == RawEvent::Connected(false) ==> after.schedule.next_connect_attempt == now
                + 250_000_000
            &&& !(event is Disconnected) && event != RawEvent::Connected(false)
                ==> after.schedule.next_connect_attempt == before.schedule.next_connect_attempt
        }),
{
}

/// A thread goes to work unless its display is known to be closed, and says first that there is no
/// display where that is known.
pub proof fn threads_start_unless_closed(closed: Option<bool>, active: Option<bool>)
    ensures
        spec_start(closed, active) is Return <==> closed is Some && closed->0,
        spec_start(closed, active) is Announce <==> !(closed is Some && closed->0) && active is Some
            && !active->0,
        spec_start(closed, active) is Work <==> !(closed is Some && closed->0) && !(active is Some
            && !active->0),
{
}

/// Each action ends with an event of its own kind or, where it needs the shared state, with the
/// news that this cannot be used any more.
pub proof fn raw_actions_end_in_their_own_way(action: RawAction, event: RawEvent)
    ensures
        event is Closed ==> (action.ends_with(event) <==> action is CheckClosed),
        event is Active ==> (action.ends_with(event) <==> action is ReadActive),
        event is Scanned ==> (action.ends_with(event) <==> action is Scan),
        event is KeptTaken ==> (action.ends_with(event) <==> action is TakeKept),
        event is KeptPlaced ==> (action.ends_with(event) <==> action is PlaceKept),
        event is CommitBegun ==> (action.ends_with(event) <==> action is BeginCommit),
        event is Committed ==> (action.ends_with(event) <==> action is Commit),
        event is Disconnected ==> (action.ends_with(event) <==> action is Disconnect),
        event is Connected ==> (action.ends_with(event) <==> action is Connect),
        event is Waited ==> (action.ends_with(event) <==> action is Wait),
        event is Unusable ==> (action.ends_with(event) <==> !(action is Disconnect
            || action is Wait || action is Stop)),
{
}

} // verus!
