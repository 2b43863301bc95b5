//! The frames that wait for the display thread.
use crate::error::{Error, ErrorKind};
use core::mem::swap;
use vstd::multiset::Multiset;
use vstd::prelude::*;

verus! {

/// At most one frame waits to be shown. Frames that will not be shown any more wait to be given
/// back to their owners.
pub struct DisplayQueueState<T> {
    pub pending: Option<T>,
    pub releases: Vec<T>,
    pub closed: bool,
}

/// What a queue holds.
#[verifier::ext_equal]
pub ghost struct Queued<T> {
    pub pending: Option<T>,
    pub releases: Seq<T>,
    pub closed: bool,
}

impl<T> View for DisplayQueueState<T> {
    type V = Queued<T>;

    open spec fn view(&self) -> Queued<T> {
        Queued { pending: self.pending, releases: self.releases@, closed: self.closed }
    }
}

impl<T> Queued<T> {
    pub open spec fn empty() -> Queued<T> {
        Queued { pending: None, releases: seq![], closed: false }
    }

    /// The newest frame takes the place of the one that waited.
    pub open spec fn enqueued(self, desc: T) -> Queued<T> {
        if self.closed {
            self
        } else {
            Queued {
                pending: Some(desc),
                releases: match self.pending {
                    Some(replaced) => self.releases.push(replaced),
                    None => self.releases,
                },
                closed: false,
            }
        }
    }

    /// A frame that could not be shown waits again, unless a newer one does or the queue is
    /// closed.
    pub open spec fn restored(self, desc: T) -> Queued<T> {
        if self.closed || self.pending is Some {
            Queued { releases: self.releases.push(desc), ..self }
        } else {
            Queued { pending: Some(desc), ..self }
        }
    }

    pub open spec fn pending_taken(self) -> Queued<T> {
        Queued { pending: None, ..self }
    }

    pub open spec fn releases_taken(self) -> Queued<T> {
        Queued { releases: seq![], ..self }
    }

    /// There is something to do without waiting for it.
    pub open spec fn is_ready(self) -> bool {
        self.closed || self.pending is Some || self.releases.len() > 0
    }

    /// Every frame in the queue.
    pub open spec fn frames(self) -> Multiset<T> {
        let released = self.releases.to_multiset();
        match self.pending {
            Some(desc) => released.insert(desc),
            None => released,
        }
    }
}

impl<T> DisplayQueueState<T> {
    pub fn new() -> (r: DisplayQueueState<T>)
        ensures
            r@ == Queued::<T>::empty(),
    {
        DisplayQueueState { pending: None, releases: Vec::new(), closed: false }
    }

    /// Lets the newest frame wait. A closed queue drops it and says so.
    pub fn enqueue(&mut self, desc: T) -> (r: Result<(), Error>)
        ensures
            final(self)@ == old(self)@.enqueued(desc),
            match r {
                Ok(()) => !old(self).closed,
                Err(e) => old(self).closed && e == Error::Simple(ErrorKind::BrokenPipe),
            },
    {
        if self.closed {
            return Err(Error::Simple(ErrorKind::BrokenPipe));
        }
        if let Some(replaced) = self.pending.take() {
            self.releases.push(replaced);
        }
        self.pending = Some(desc);
        Ok(())
    }

    /// Takes the frame that is to be shown next.
    pub fn take_pending(&mut self) -> (r: Option<T>)
        ensures
            r == old(self)@.pending,
            final(self)@ == old(self)@.pending_taken(),
    {
        self.pending.take()
    }

    /// Takes back a frame that could not be shown.
    pub fn restore_or_release(&mut self, desc: T)
        ensures
            final(self)@ == old(self)@.restored(desc),
    {
        if self.closed || self.pending.is_some() {
            self.releases.push(desc);
        } else {
            self.pending = Some(desc);
        }
    }

    /// Takes the frames that are to be given back, oldest first.
    pub fn take_releases(&mut self) -> (r: Vec<T>)
        ensures
            r@ == old(self)@.releases,
            final(self)@ == old(self)@.releases_taken(),
    {
        let mut releases: Vec<T> = Vec::new();
        swap(&mut releases, &mut self.releases);
        releases
    }

    /// Whether there is something to do without waiting for it.
    pub fn is_ready(&self) -> (r: bool)
        ensures
            r == self@.is_ready(),
    {
        self.closed || self.pending.is_some() || self.releases.len() > 0
    }

    pub fn close(&mut self)
        ensures
            final(self)@ == (Queued { closed: true, ..old(self)@ }),
    {
        self.closed = true;
    }

    pub fn is_closed(&self) -> (r: bool)
        ensures
            r == self@.closed,
    {
        self.closed
    }
}

/// What can happen to a queue.
pub ghost enum QueueEvent<T> {
    Enqueue(T),
    Restore(T),
    TakePending,
    TakeReleases,
    Close,
}

impl<T> Queued<T> {
    /// The queue after the event.
    pub open spec fn step(self, event: QueueEvent<T>) -> Queued<T> {
        match event {
            QueueEvent::Enqueue(desc) => self.enqueued(desc),
            QueueEvent::Restore(desc) => self.restored(desc),
            QueueEvent::TakePending => self.pending_taken(),
            QueueEvent::TakeReleases => self.releases_taken(),
            QueueEvent::Close => Queued { closed: true, ..self },
        }
    }

    /// The frames that the event puts into the queue.
    pub open spec fn comes_in(self, event: QueueEvent<T>) -> Multiset<T> {
        match event {
            QueueEvent::Enqueue(desc) => if self.closed {
                Multiset::empty()
            } else {
                Multiset::singleton(desc)
            },
            QueueEvent::Restore(desc) => Multiset::singleton(desc),
            _ => Multiset::empty(),
        }
    }

    /// The frames that the event hands out.
    pub open spec fn goes_out(self, event: QueueEvent<T>) -> Multiset<T> {
        match event {
            QueueEvent::TakePending => match self.pending {
                Some(desc) => Multiset::singleton(desc),
                None => Multiset::empty(),
            },
            QueueEvent::TakeReleases => self.releases.to_multiset(),
            _ => Multiset::empty(),
        }
    }

    /// The queue after all the events.
    pub open spec fn run(self, events: Seq<QueueEvent<T>>) -> Queued<T>
        decreases events.len(),
    {
        if events.len() == 0 {
            self
        } else {
            self.run(events.drop_last()).step(events.last())
        }
    }

    pub open spec fn all_in(self, events: Seq<QueueEvent<T>>) -> Multiset<T>
        decreases events.len(),
    {
        if events.len() == 0 {
            Multiset::empty()
        } else {
            let before = self.run(events.drop_last());
            self.all_in(events.drop_last()).add(before.comes_in(events.last()))
        }
    }

    pub open spec fn all_out(self, events: Seq<QueueEvent<T>>) -> Multiset<T>
        decreases events.len(),
    {
        if events.len() == 0 {
            Multiset::empty()
        } else {
            let before = self.run(events.drop_last());
            self.all_out(events.drop_last()).add(before.goes_out(events.last()))
        }
    }
}

proof fn lemma_step_keeps_frames<T>(q: Queued<T>, event: QueueEvent<T>)
    ensures
        q.step(event).frames().add(q.goes_out(event)) == q.frames().add(q.comes_in(event)),
{
    broadcast use vstd::seq_lib::group_to_multiset_ensures;

    match event {
        QueueEvent::Enqueue(desc) => {
            if !q.closed && q.pending is Some {
                assert(q.releases.push(q.pending->0).to_multiset() =~= q.releases.to_multiset().insert(
                    q.pending->0,
                ));
            }
        },
        QueueEvent::Restore(desc) => {
            assert(q.releases.push(desc).to_multiset() =~= q.releases.to_multiset().insert(desc));
        },
        _ => {
            assert(Seq::<T>::empty().to_multiset() =~= Multiset::empty());
        },
    }
    assert(q.step(event).frames().add(q.goes_out(event)) =~= q.frames().add(q.comes_in(event)));
}

/// No frame is lost and none is handed out twice: whatever happens to a queue, the frames that
/// it handed out and those it still holds are those that were put into it.
pub proof fn frames_are_kept<T>(events: Seq<QueueEvent<T>>)
    ensures
        ({
            let q = Queued::<T>::empty();
            q.all_out(events).add(q.run(events).frames()) == q.all_in(events)
        }),
    decreases events.len(),
{
    let q = Queued::<T>::empty();
    if events.len() == 0 {
        broadcast use vstd::seq_lib::group_to_multiset_ensures;

        assert(Seq::<T>::empty().to_multiset() =~= Multiset::empty());
        assert(q.all_out(events).add(q.run(events).frames()) =~= q.all_in(events));
    } else {
        let front = events.drop_last();
        let before = q.run(front);
        frames_are_kept(front);
        lemma_step_keeps_frames(before, events.last());
        assert(q.all_out(events).add(q.run(events).frames()) =~= q.all_out(front).add(
            before.goes_out(events.last()).add(before.step(events.last()).frames()),
        ));
        assert(before.goes_out(events.last()).add(before.step(events.last()).frames())
            =~= before.frames().add(before.comes_in(events.last())));
        assert(q.all_out(front).add(before.frames().add(before.comes_in(events.last())))
            =~= q.all_out(front).add(before.frames()).add(before.comes_in(events.last())));
    }
}

/// What waits to be shown is always the newest frame: of two frames that were enqueued one
/// after the other the first is given back and the second waits.
pub proof fn newest_frame_waits<T>(q: Queued<T>, first: T, second: T)
    requires
        !q.closed,
    ensures
        q.enqueued(first).enqueued(second).pending == Some(second),
        q.enqueued(first).enqueued(second).releases.last() == first,
{
}

/// A frame that comes back never takes the place of a newer one.
pub proof fn restored_frame_yields<T>(q: Queued<T>, newer: T, returned: T)
    requires
        !q.closed,
    ensures
        q.pending_taken().enqueued(newer).restored(returned).pending == Some(newer),
        q.pending_taken().restored(returned).enqueued(newer).pending == Some(newer),
        q.pending_taken().restored(returned).pending == Some(returned),
{
}

/// Once closed, a queue stays closed, and no frame is accepted any more.
pub proof fn closed_queue_stays_closed<T>(q: Queued<T>, events: Seq<QueueEvent<T>>, desc: T)
    requires
        q.closed,
    ensures
        q.run(events).closed,
        q.run(events).enqueued(desc) == q.run(events),
    decreases events.len(),
{
    if events.len() > 0 {
        closed_queue_stays_closed(q, events.drop_last(), desc);
    }
}

/// A closed queue whose frames were taken is empty for good: nothing that callers bring gets in
/// any more.
pub proof fn emptied_queue_stays_empty<T>(q: Queued<T>, desc: T)
    requires
        q.closed,
    ensures
        q.pending_taken().releases_taken().frames() == Multiset::<T>::empty(),
        q.pending_taken().releases_taken().enqueued(desc) == q.pending_taken().releases_taken(),
{
    broadcast use vstd::seq_lib::group_to_multiset_ensures;

    assert(Seq::<T>::empty().to_multiset() =~= Multiset::empty());
}

/// An open queue lets a new frame wait, and puts the frame that waited behind those that are to
/// be given back. A closed queue does not change.
pub proof fn enqueuing_replaces_what_waited<T>(q: Queued<T>, desc: T)
    ensures
        q.enqueued(desc).closed == q.closed,
        q.closed ==> q.enqueued(desc).pending == q.pending && q.enqueued(desc).releases
            == q.releases,
        !q.closed ==> q.enqueued(desc).pending == Some(desc),
        !q.closed && q.pending is None ==> q.enqueued(desc).releases == q.releases,
        !q.closed && q.pending is Some ==> {
            let releases = q.enqueued(desc).releases;
            &&& releases.len() == q.releases.len() + 1
            &&& releases[releases.len() - 1] == q.pending->0
            &&& releases.take(q.releases.len() as int) == q.releases
        },
{
    if !q.closed && q.pending is Some {
        assert(q.enqueued(desc).releases.take(q.releases.len() as int) =~= q.releases);
    }
}

/// A frame that comes back waits again where an open queue has none waiting, and is given back
/// otherwise, after all others.
pub proof fn restoring_fills_a_gap<T>(q: Queued<T>, desc: T)
    ensures
        q.restored(desc).closed == q.closed,
        !q.closed && q.pending is None ==> q.restored(desc).pending == Some(desc) && q.restored(
            desc,
        ).releases == q.releases,
        q.closed || q.pending is Some ==> {
            let releases = q.restored(desc).releases;
            &&& q.restored(desc).pending == q.pending
            &&& releases.len() == q.releases.len() + 1
            &&& releases[releases.len() - 1] == desc
            &&& releases.take(q.releases.len() as int) == q.releases
        },
{
    if q.closed || q.pending is Some {
        assert(q.restored(desc).releases.take(q.releases.len() as int) =~= q.releases);
    }
}

/// Taking the frame that waits leaves those that are to be given back, and the other way round.
pub proof fn taking_leaves_the_rest<T>(q: Queued<T>)
    ensures
        q.pending_taken().pending is None,
        q.pending_taken().releases == q.releases,
        q.pending_taken().closed == q.closed,
        q.releases_taken().releases.len() == 0,
        q.releases_taken().pending == q.pending,
        q.releases_taken().closed == q.closed,
        Queued::<T>::empty().pending is None,
        Queued::<T>::empty().releases.len() == 0,
        !Queued::<T>::empty().closed,
{
}

/// There is something to do where the queue is closed or holds a frame.
pub proof fn ready_queues_have_something<T>(q: Queued<T>)
    ensures
        q.is_ready() <==> q.closed || q.frames().len() > 0,
{
    broadcast use vstd::seq_lib::group_to_multiset_ensures;
    broadcast use vstd::multiset::group_multiset_axioms;

    assert(q.releases.to_multiset().len() == q.releases.len());
}

} // verus!
