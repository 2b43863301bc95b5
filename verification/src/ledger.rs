//! Every frame that a display accepts is given back once.
use crate::prime_loop::{DisplayLoop, LoopEvent};
use crate::queue::Queued;
use crate::scanout::{
    lemma_released_push, lemma_released_release, lemma_released_retirements, lemma_released_trace,
    released, retirement_of, shut_down_effects, spec_release, Effect, ScanoutState, TraceStage,
    TraceToken,
};
use crate::submit::{
    failed_commit, failed_import, is_commit, keepalives, lemma_released_all,
    refused_frames_are_not_released, spec_release_all, PrimeDesc,
};
use vstd::multiset::Multiset;
use vstd::prelude::*;
use vstd::seq_lib::lemma_multiset_commutative;

verus! {

/// A display for imported frames: its thread, its queue, the frame that the thread has taken and
/// the frames on the card. Beside them stand the keepalives of all frames that were accepted, and
/// of all that were released.
pub ghost struct Ledger<K> {
    pub thread: DisplayLoop,
    pub queue: Queued<PrimeDesc<K>>,
    pub taken: Option<PrimeDesc<K>>,
    pub card: Option<ScanoutState<K>>,
    pub accepted: Multiset<K>,
    pub released: Multiset<K>,
}

/// What can happen to a display, with the effects that are carried out.
pub ghost enum Happening<K> {
    /// A caller brings a frame.
    Enqueue(PrimeDesc<K>),
    /// A caller closes the display.
    Close,
    /// The thread ends an action with an event at a time.
    Step(LoopEvent, u64, Seq<Effect<K>>),
    /// The thread, having stopped, drops what it holds.
    Exit(Seq<Effect<K>>),
}

/// The effects of a refused frame: its framebuffer and handles are cleared away, and the failure
/// is traced.
pub open spec fn is_refusal<K>(token: Option<TraceToken>, effects: Seq<Effect<K>>) -> bool {
    ||| exists|handles: Option<[Option<u32>; 4]>| failed_import(handles, token, effects)
    ||| exists|fb: u32, handles: [Option<u32>; 4]| failed_commit(fb, handles, token, effects)
}

impl<K> Ledger<K> {
    /// The queue, the taken frame and the card are as in `other`.
    pub open spec fn holds_as(self, other: Ledger<K>) -> bool {
        self.queue == other.queue && self.taken == other.taken && self.card == other.card
    }

    /// A display that was just opened.
    pub open spec fn is_new(self) -> bool {
        &&& self.thread.action is ReleaseQueued
        &&& self.thread.wf()
        &&& self.queue == Queued::<PrimeDesc<K>>::empty()
        &&& self.taken is None
        &&& match self.card {
            Some(state) => self.thread.info is Some && state.stale is None && state.in_flight is None,
            None => self.thread.info is None,
        }
        &&& self.accepted == Multiset::<K>::empty()
        &&& self.released == Multiset::<K>::empty()
    }

    /// What the event does to the frames.
    pub open spec fn moves(self, event: LoopEvent, effects: Seq<Effect<K>>, after: Ledger<K>) -> bool {
        match event {
            LoopEvent::Released(usable) => {
                &&& usable
                &&& effects == spec_release_all(
                    self.queue.releases,
                    TraceStage::NativeReleaseReplaced,
                )
                &&& after.holds_as(Ledger { queue: self.queue.releases_taken(), ..self })
            },
            LoopEvent::Closed(answer) => {
                &&& answer == Some(self.queue.closed)
                &&& effects.len() == 0
                &&& after.holds_as(self)
            },
            LoopEvent::PendingReleased(usable) => {
                &&& usable
                &&& effects == (match self.queue.pending {
                    Some(desc) => spec_release(
                        desc.keepalive,
                        desc.trace_token,
                        TraceStage::NativeReleasePending,
                    ),
                    None => seq![],
                })
                &&& after.holds_as(Ledger { queue: self.queue.pending_taken(), ..self })
            },
            LoopEvent::RestReleased => {
                &&& effects == spec_release_all(
                    self.queue.releases,
                    TraceStage::NativeReleaseReplaced,
                )
                &&& after.holds_as(Ledger { queue: self.queue.releases_taken(), ..self })
            },
            LoopEvent::Taken(answer) => {
                &&& answer == Some(self.queue.pending is Some)
                &&& effects.len() == 0
                &&& after.holds_as(
                    Ledger {
                        queue: self.queue.pending_taken(),
                        taken: self.queue.pending,
                        ..self
                    },
                )
            },
            LoopEvent::Submitted(Ok(())) => {
                &&& self.taken matches Some(desc) && self.card matches Some(before)
                    && after.card matches Some(state) && is_commit(before, desc, state, effects)
                &&& after.taken is None
                &&& after.queue == self.queue
            },
            LoopEvent::Submitted(Err(_)) => {
                &&& self.taken matches Some(desc) && is_refusal(desc.trace_token, effects)
                    && after.queue == self.queue.restored(desc)
                &&& self.card matches Some(before) && after.card matches Some(state)
                    && state.stale == before.stale && state.in_flight == before.in_flight
                &&& after.taken is None
            },
            LoopEvent::Disconnected => {
                &&& effects == shut_down_effects(self.card)
                &&& after.holds_as(Ledger { card: None, ..self })
            },
            LoopEvent::Connected(Some(_)) => {
                &&& effects.len() == 0
                &&& after.card matches Some(state) && state.stale is None && state.in_flight is None
                &&& after.holds_as(Ledger { card: after.card, ..self })
            },
            LoopEvent::Connected(None) | LoopEvent::Scanned(_) | LoopEvent::Waited => {
                &&& effects.len() == 0
                &&& after.holds_as(self)
            },
        }
    }

    /// What happens leads from `self` to `after`. The queue can be used all the time.
    pub open spec fn leads_to(self, happening: Happening<K>, after: Ledger<K>) -> bool {
        match happening {
            Happening::Enqueue(desc) => after == (Ledger {
                queue: self.queue.enqueued(desc),
                accepted: if self.queue.closed {
                    self.accepted
                } else {
                    self.accepted.insert(desc.keepalive)
                },
                ..self
            }),
            Happening::Close => after == (Ledger {
                queue: Queued { closed: true, ..self.queue },
                ..self
            }),
            Happening::Step(event, now, effects) => {
                &&& self.thread.accepts(event)
                &&& self.thread.leads_to(event, now, after.thread)
                &&& after.thread.wf()
                &&& self.moves(event, effects, after)
                &&& after.accepted == self.accepted
                &&& after.released == self.released.add(released(effects).to_multiset())
            },
            Happening::Exit(effects) => {
                &&& self.thread.action is Stop
                &&& effects == shut_down_effects(self.card)
                &&& after == (Ledger {
                    card: None,
                    released: self.released.add(released(effects).to_multiset()),
                    ..self
                })
            },
        }
    }

    pub open spec fn in_queue(self) -> Multiset<K> {
        let waiting = match self.queue.pending {
            Some(desc) => seq![desc.keepalive],
            None => seq![],
        };
        keepalives(self.queue.releases).to_multiset().add(waiting.to_multiset())
    }

    pub open spec fn in_hand(self) -> Multiset<K> {
        match self.taken {
            Some(desc) => seq![desc.keepalive].to_multiset(),
            None => Multiset::empty(),
        }
    }

    pub open spec fn on_card(self) -> Multiset<K> {
        match self.card {
            Some(state) => state.held().to_multiset(),
            None => Multiset::empty(),
        }
    }

    /// Each frame that was accepted was released, or is in one place.
    pub open spec fn balances(self) -> bool {
        self.accepted == self.released.add(self.in_queue()).add(self.in_hand()).add(self.on_card())
    }

    /// The parts fit together.
    pub open spec fn wf(self) -> bool {
        &&& self.thread.wf()
        &&& self.taken is Some <==> self.thread.action is Submit
        &&& !(self.thread.action is Stop) ==> (self.card is Some <==> self.thread.info is Some)
        &&& self.card matches Some(state) ==> state.wf()
        &&& (self.thread.action is ReleasePending || self.thread.action is ReleaseRest
            || self.thread.action is Stop) ==> self.queue.closed
        &&& (self.thread.action is ReleaseRest || self.thread.action is Stop)
            ==> self.queue.pending is None
        &&& self.thread.action is Stop ==> self.queue.releases.len() == 0
    }
}

proof fn lemma_no_effects_release_nothing<K>(effects: Seq<Effect<K>>)
    requires
        effects.len() == 0,
    ensures
        released(effects).to_multiset() == Multiset::<K>::empty(),
{
    broadcast use vstd::seq_lib::group_to_multiset_ensures;

    assert(released(effects).to_multiset() =~= Multiset::empty());
}

proof fn lemma_refusal_releases_nothing<K>(token: Option<TraceToken>, effects: Seq<Effect<K>>)
    requires
        is_refusal(token, effects),
    ensures
        released(effects).to_multiset() == Multiset::<K>::empty(),
{
    broadcast use vstd::seq_lib::group_to_multiset_ensures;

    if exists|handles: Option<[Option<u32>; 4]>| failed_import(handles, token, effects) {
        let handles = choose|handles: Option<[Option<u32>; 4]>|
            failed_import(handles, token, effects);
        refused_frames_are_not_released(handles, token, effects);
    } else {
        let (fb, handles) = choose|fb: u32, handles: [Option<u32>; 4]|
            failed_commit(fb, handles, token, effects);
        let none = Seq::<Effect<K>>::empty();
        let first = none.push(Effect::DestroyFramebuffer(fb));
        let both = first.push(Effect::CloseHandles(handles));
        lemma_released_push(none, Effect::DestroyFramebuffer(fb));
        lemma_released_push(first, Effect::CloseHandles(handles));
        lemma_released_trace(both, token, TraceStage::NativeSubmitError);
        assert(both =~= seq![Effect::DestroyFramebuffer(fb), Effect::CloseHandles(handles)]);
    }
    assert(released(effects).to_multiset() =~= Multiset::empty());
}

proof fn lemma_shut_down_releases_all<K>(card: Option<ScanoutState<K>>)
    ensures
        released(shut_down_effects(card)).to_multiset() == (match card {
            Some(state) => state.held().to_multiset(),
            None => Multiset::<K>::empty(),
        }),
{
    match card {
        Some(state) => {
            lemma_released_retirements(state.stale, state.in_flight);
        },
        None => {
            lemma_no_effects_release_nothing(shut_down_effects(card));
        },
    }
}

proof fn lemma_commit_keeps_count<K>(
    before: ScanoutState<K>,
    desc: PrimeDesc<K>,
    after: ScanoutState<K>,
    effects: Seq<Effect<K>>,
)
    requires
        is_commit(before, desc, after, effects),
    ensures
        released(effects).to_multiset().add(after.held().to_multiset())
            == before.held().to_multiset().add(seq![desc.keepalive].to_multiset()),
{
    lemma_released_trace(
        retirement_of(before.stale),
        desc.trace_token,
        TraceStage::NativeSubmit,
    );
    lemma_released_retirements(before.stale, None);
    lemma_multiset_commutative(released(effects), after.held());
    lemma_multiset_commutative(before.held(), seq![desc.keepalive]);
    assert(released(effects) + after.held() =~= before.held() + seq![desc.keepalive]);
}

proof fn lemma_queue_counts<K>(l: Ledger<K>, desc: PrimeDesc<K>)
    ensures
        !l.queue.closed ==> (Ledger { queue: l.queue.enqueued(desc), ..l }).in_queue()
            == l.in_queue().insert(desc.keepalive),
        (Ledger { queue: l.queue.restored(desc), ..l }).in_queue() == l.in_queue().add(
            seq![desc.keepalive].to_multiset(),
        ),
{
    broadcast use vstd::seq_lib::group_to_multiset_ensures;

    let releases = l.queue.releases;
    let none = Seq::<K>::empty();
    assert(none.to_multiset() =~= Multiset::empty());
    assert(seq![desc.keepalive] =~= none.push(desc.keepalive));
    assert(keepalives(releases.push(desc)) =~= keepalives(releases).push(desc.keepalive));
    if let Some(replaced) = l.queue.pending {
        assert(seq![replaced.keepalive] =~= none.push(replaced.keepalive));
        assert(keepalives(releases.push(replaced)) =~= keepalives(releases).push(
            replaced.keepalive,
        ));
    }
    if !l.queue.closed {
        assert((Ledger { queue: l.queue.enqueued(desc), ..l }).in_queue()
            =~= l.in_queue().insert(desc.keepalive));
    }
    assert((Ledger { queue: l.queue.restored(desc), ..l }).in_queue() =~= l.in_queue().add(
        seq![desc.keepalive].to_multiset(),
    ));
}

proof fn lemma_step_balances<K>(
    l: Ledger<K>,
    event: LoopEvent,
    now: u64,
    effects: Seq<Effect<K>>,
    after: Ledger<K>,
)
    requires
        l.wf(),
        l.balances(),
        l.leads_to(Happening::Step(event, now, effects), after),
    ensures
        after.wf(),
        after.balances(),
{
    let none = Seq::<K>::empty();
    assert(none.to_multiset() =~= Multiset::empty()) by {
        broadcast use vstd::seq_lib::group_to_multiset_ensures;

    }
    assert(keepalives(Seq::<PrimeDesc<K>>::empty()) =~= none);
    match event {
        LoopEvent::Released(_) | LoopEvent::RestReleased => {
            lemma_released_all(l.queue.releases, TraceStage::NativeReleaseReplaced);
        },
        LoopEvent::PendingReleased(_) => {
            match l.queue.pending {
                Some(desc) => {
                    lemma_released_release(
                        Seq::empty(),
                        desc.keepalive,
                        desc.trace_token,
                        TraceStage::NativeReleasePending,
                    );
                    assert(Seq::empty() + effects =~= effects);
                    assert(released(effects) =~= seq![desc.keepalive]);
                },
                None => {
                    lemma_no_effects_release_nothing(effects);
                },
            }
        },
        LoopEvent::Submitted(Ok(())) => {
            lemma_commit_keeps_count(l.card->0, l.taken->0, after.card->0, effects);
            let base = l.released.add(l.in_queue());
            let gone = released(effects).to_multiset();
            assert(base.add(gone.add(after.on_card())) =~= after.released.add(
                after.in_queue(),
            ).add(after.in_hand()).add(after.on_card()));
            assert(base.add(l.on_card().add(l.in_hand())) =~= base.add(l.in_hand()).add(
                l.on_card(),
            ));
        },
        LoopEvent::Submitted(Err(_)) => {
            let desc = l.taken->0;
            lemma_refusal_releases_nothing(desc.trace_token, effects);
            lemma_queue_counts(l, desc);
            assert(after.in_queue() == (Ledger { queue: l.queue.restored(desc), ..l }).in_queue());
        },
        LoopEvent::Disconnected => {
            lemma_shut_down_releases_all(l.card);
        },
        LoopEvent::Connected(Some(_)) => {
            lemma_no_effects_release_nothing(effects);
            assert(after.card->0.held() =~= none);
        },
        _ => {
            lemma_no_effects_release_nothing(effects);
        },
    }
    assert(after.accepted =~= after.released.add(after.in_queue()).add(after.in_hand()).add(
        after.on_card(),
    ));
}

/// A display at work: the states it went through, and what happened between them.
pub ghost struct LedgerRun<K> {
    pub ledgers: Seq<Ledger<K>>,
    pub happenings: Seq<Happening<K>>,
}

impl<K> LedgerRun<K> {
    pub open spec fn is_run(self) -> bool {
        &&& self.ledgers.len() == self.happenings.len() + 1
        &&& self.ledgers[0].is_new()
        &&& forall|i: int| 0 <= i < self.happenings.len() ==> self.steps(i)
    }

    pub open spec fn steps(self, i: int) -> bool {
        self.ledgers[i].leads_to(self.happenings[i], self.ledgers[i + 1])
    }
}

/// At every time, each frame that was accepted either was released once, or is in exactly one
/// place: in the queue, with the thread, or on the card.
pub proof fn frames_are_in_one_place<K>(run: LedgerRun<K>, i: int)
    requires
        run.is_run(),
        0 <= i < run.ledgers.len(),
    ensures
        run.ledgers[i].wf(),
        run.ledgers[i].balances(),
    decreases i,
{
    if i == 0 {
        let l = run.ledgers[0];
        let none = Seq::<K>::empty();
        assert(none.to_multiset() =~= Multiset::empty()) by {
            broadcast use vstd::seq_lib::group_to_multiset_ensures;

        }
        assert(keepalives(l.queue.releases) =~= none);
        if let Some(state) = l.card {
            assert(state.held() =~= none);
        }
        assert(l.accepted =~= l.released.add(l.in_queue()).add(l.in_hand()).add(l.on_card()));
    } else {
        frames_are_in_one_place(run, i - 1);
        assert(run.steps(i - 1));
        let before = run.ledgers[i - 1];
        let after = run.ledgers[i];
        match run.happenings[i - 1] {
            Happening::Enqueue(desc) => {
                lemma_queue_counts(before, desc);
                assert(after.in_queue() == (Ledger {
                    queue: before.queue.enqueued(desc),
                    ..before
                }).in_queue());
            },
            Happening::Close => {},
            Happening::Step(event, now, effects) => {
                lemma_step_balances(before, event, now, effects, after);
            },
            Happening::Exit(effects) => {
                lemma_shut_down_releases_all(before.card);
            },
        }
        assert(after.accepted =~= after.released.add(after.in_queue()).add(after.in_hand()).add(
            after.on_card(),
        ));
    }
}

/// When the thread of a closed display has stopped and dropped what it held, every frame that
/// was ever accepted has been released exactly once, however it ended: shown, replaced, still
/// waiting, or put back after it could not be shown. Nothing is left in the queue.
pub proof fn every_frame_is_released_once<K>(run: LedgerRun<K>, i: int)
    requires
        run.is_run(),
        0 <= i < run.ledgers.len(),
        run.ledgers[i].thread.action is Stop,
        run.ledgers[i].card is None,
    ensures
        run.ledgers[i].accepted == run.ledgers[i].released,
        run.ledgers[i].queue.closed,
        run.ledgers[i].queue.pending is None,
        run.ledgers[i].queue.releases.len() == 0,
        run.ledgers[i].taken is None,
{
    let l = run.ledgers[i];
    frames_are_in_one_place(run, i);
    assert(Seq::<K>::empty().to_multiset() =~= Multiset::empty()) by {
        broadcast use vstd::seq_lib::group_to_multiset_ensures;

    }
    assert(keepalives(l.queue.releases) =~= Seq::<K>::empty());
    assert(l.accepted =~= l.released);
}

} // verus!
