//! When a display thread looks for a display and checks the one it has.
use vstd::prelude::*;

verus! {

/// Nanoseconds between attempts to connect to a display.
pub const RECONNECT_INTERVAL: u64 = 250_000_000;

/// Nanoseconds between checks that the display is still the same.
pub const HOTPLUG_INTERVAL: u64 = 750_000_000;

/// Points in time, in nanoseconds.
#[derive(Clone, Copy, PartialEq, Eq, Structural, Debug)]
pub struct Schedule {
    pub next_connect_attempt: u64,
    pub next_hotplug_check: u64,
}

/// The time left from `now` until `due`.
pub open spec fn time_until(due: u64, now: u64) -> int {
    if due > now {
        due - now
    } else {
        0
    }
}

impl Schedule {
    /// As of `now`, nothing lies further ahead than its interval.
    pub open spec fn wf(self, now: u64) -> bool {
        &&& self.next_connect_attempt <= now + RECONNECT_INTERVAL
        &&& self.next_hotplug_check <= now + HOTPLUG_INTERVAL
    }

    /// The clock leaves room for the intervals.
    pub open spec fn clock_fits(now: u64) -> bool {
        now + HOTPLUG_INTERVAL <= u64::MAX
    }

    pub open spec fn started_at(now: u64) -> Schedule {
        Schedule {
            next_connect_attempt: now,
            next_hotplug_check: (now + HOTPLUG_INTERVAL) as u64,
        }
    }

    pub fn new(now: u64) -> (r: Schedule)
        requires
            Schedule::clock_fits(now),
        ensures
            r.next_connect_attempt == now,
            r.next_hotplug_check == now + HOTPLUG_INTERVAL,
            r == Schedule::started_at(now),
            r.wf(now),
    {
        Schedule { next_connect_attempt: now, next_hotplug_check: now + HOTPLUG_INTERVAL }
    }

    pub fn hotplug_check_is_due(&self, now: u64) -> (r: bool)
        ensures
            r == (now >= self.next_hotplug_check),
    {
        now >= self.next_hotplug_check
    }

    pub fn connect_attempt_is_due(&self, now: u64) -> (r: bool)
        ensures
            r == (now >= self.next_connect_attempt),
    {
        now >= self.next_connect_attempt
    }

    pub open spec fn checked_at(self, now: u64) -> Schedule {
        Schedule { next_hotplug_check: (now + HOTPLUG_INTERVAL) as u64, ..self }
    }

    /// The display was there at `now`.
    pub fn display_seen(&mut self, now: u64)
        requires
            Schedule::clock_fits(now),
        ensures
            *final(self) == old(self).checked_at(now),
            final(self).next_hotplug_check == now + HOTPLUG_INTERVAL,
    {
        self.next_hotplug_check = now + HOTPLUG_INTERVAL;
    }

    pub open spec fn failed_at(self, now: u64) -> Schedule {
        Schedule { next_connect_attempt: (now + RECONNECT_INTERVAL) as u64, ..self }
    }

    /// There was no display to connect to at `now`.
    pub fn connect_failed(&mut self, now: u64)
        requires
            Schedule::clock_fits(now),
        ensures
            *final(self) == old(self).failed_at(now),
            final(self).next_connect_attempt == now + RECONNECT_INTERVAL,
    {
        self.next_connect_attempt = now + RECONNECT_INTERVAL;
    }

    pub open spec fn lost_at(self, now: u64) -> Schedule {
        Schedule { next_connect_attempt: now, ..self }
    }

    /// The display was lost at `now`; another one is looked for at once.
    pub fn display_lost(&mut self, now: u64)
        ensures
            *final(self) == old(self).lost_at(now),
    {
        self.next_connect_attempt = now;
    }

    pub open spec fn spec_timeout(self, connected: bool, now: u64) -> int {
        if connected {
            time_until(self.next_hotplug_check, now)
        } else {
            time_until(self.next_connect_attempt, now)
        }
    }

    /// How long nothing needs to be done.
    pub fn timeout(&self, connected: bool, now: u64) -> (r: u64)
        ensures
            r == self.spec_timeout(connected, now),
    {
        let due: u64 = if connected {
            self.next_hotplug_check
        } else {
            self.next_connect_attempt
        };
        if due > now {
            due - now
        } else {
            0
        }
    }
}

/// A thread that waits wakes up in time: it never sleeps longer than the interval of what it
/// waits for, and when it has slept that long, this is due.
pub proof fn waiting_is_bounded(s: Schedule, earlier: u64, now: u64)
    requires
        s.wf(earlier),
        earlier <= now,
    ensures
        s.wf(now),
        s.spec_timeout(true, now) <= HOTPLUG_INTERVAL,
        s.spec_timeout(false, now) <= RECONNECT_INTERVAL,
        now + s.spec_timeout(true, now) >= s.next_hotplug_check,
        now + s.spec_timeout(false, now) >= s.next_connect_attempt,
{
}

/// Whatever is recorded at `now`, nothing lies further ahead than its interval.
pub proof fn schedule_stays_well_formed(s: Schedule, now: u64)
    requires
        s.wf(now),
        Schedule::clock_fits(now),
    ensures
        s.checked_at(now).wf(now),
        s.failed_at(now).wf(now),
        s.lost_at(now).wf(now),
{
}

/// A display that was seen is checked again after 750 milliseconds, one that could not be had is
/// tried again after 250, and one that was lost at once. Nothing else moves.
pub proof fn events_move_what_they_are_about(s: Schedule, now: u64)
    requires
        now + 750_000_000 <= u64::MAX,
    ensures
        s.checked_at(now).next_hotplug_check == now + 750_000_000,
        s.checked_at(now).next_connect_attempt == s.next_connect_attempt,
        s.failed_at(now).next_connect_attempt == now + 250_000_000,
        s.failed_at(now).next_hotplug_check == s.next_hotplug_check,
        s.lost_at(now).next_connect_attempt == now,
        s.lost_at(now).next_hotplug_check == s.next_hotplug_check,
        Schedule::clock_fits(now),
{
}

/// A thread sleeps until the very moment when something is due, and not at all where it is due
/// already: the check of the display it has, or the attempt to get one.
pub proof fn timeouts_end_when_something_is_due(s: Schedule, connected: bool, now: u64)
    ensures
        ({
            let due = if connected {
                s.next_hotplug_check
            } else {
                s.next_connect_attempt
            };
            &&& due > now ==> now + s.spec_timeout(connected, now) == due
            &&& due <= now ==> s.spec_timeout(connected, now) == 0
        }),
{
}

/// A thread that starts may look for a display at once, and checks one that it has after 750
/// milliseconds.
pub proof fn threads_start_with_an_attempt(now: u64)
    requires
        now + 750_000_000 <= u64::MAX,
    ensures
        Schedule::started_at(now).next_connect_attempt == now,
        Schedule::started_at(now).next_hotplug_check == now + 750_000_000,
        Schedule::started_at(now).spec_timeout(false, now) == 0,
        Schedule::started_at(now).spec_timeout(true, now) == 750_000_000,
{
}

} // verus!
