//! The imported frames that a display holds, and when they are given back.
use crate::modeset::{self, Assignment, CommitMode, Pipeline};
use vstd::prelude::*;

verus! {

/// Identifies a frame in the trace.
#[derive(Clone, Copy, PartialEq, Eq, Structural, Debug)]
pub struct TraceToken {
    pub trace_id: u64,
    pub frame_id: u64,
    pub created_at_ns: u64,
    pub sampled: bool,
    pub pts: Option<i64>,
}

/// What the trace says of a frame.
#[derive(Clone, Copy, PartialEq, Eq, Structural, Debug)]
pub enum TraceStage {
    NativeSubmit,
    NativeSubmitError,
    NativeReleaseReplaced,
    NativeReleaseDisplayed,
    NativeReleasePending,
}

impl TraceStage {
    pub open spec fn spec_is_timed(self) -> bool {
        self is NativeSubmit || self is NativeSubmitError
    }

    /// Whether the event carries the time that submitting took.
    pub fn is_timed(self) -> (r: bool)
        ensures
            r == (self is NativeSubmit || self is NativeSubmitError),
            r == self.spec_is_timed(),
    {
        match self {
            TraceStage::NativeSubmit | TraceStage::NativeSubmitError => true,
            _ => false,
        }
    }
}

/// A framebuffer on the card, with the handles of its planes and what keeps its memory alive.
pub struct DisplayUnit<K> {
    pub fb: u32,
    pub handles: [Option<u32>; 4],
    pub keepalive: K,
    pub trace_token: Option<TraceToken>,
}

/// Something to be done on the card or told to the listener or owner.
pub enum Effect<K> {
    DestroyFramebuffer(u32),
    /// Close the handles of a framebuffer, each once.
    CloseHandles([Option<u32>; 4]),
    Trace(TraceStage, TraceToken),
    /// Tell the owner that the frame's memory is free again.
    Release(K),
}

/// Only sampled frames are traced.
pub open spec fn trace_effects<K>(token: Option<TraceToken>, stage: TraceStage) -> Seq<Effect<K>> {
    match token {
        Some(t) => if t.sampled {
            seq![Effect::Trace(stage, t)]
        } else {
            seq![]
        },
        None => seq![],
    }
}

/// The frame's owner learns that it is free, and so does the trace.
pub open spec fn spec_release<K>(
    keepalive: K,
    token: Option<TraceToken>,
    stage: TraceStage,
) -> Seq<Effect<K>> {
    trace_effects(token, stage).push(Effect::Release(keepalive))
}

fn push_trace<K>(effects: &mut Vec<Effect<K>>, token: Option<TraceToken>, stage: TraceStage)
    ensures
        final(effects)@ == old(effects)@ + trace_effects::<K>(token, stage),
{
    if let Some(t) = token {
        if t.sampled {
            effects.push(Effect::Trace(stage, t));
        }
    }
    assert(effects@ =~= old(effects)@ + trace_effects::<K>(token, stage));
}

/// Gives back a frame that is not on the card.
pub fn release_prime_desc<K>(keepalive: K, token: Option<TraceToken>, stage: TraceStage) -> (r:
    Vec<Effect<K>>)
    ensures
        r@ == spec_release(keepalive, token, stage),
{
    let mut effects: Vec<Effect<K>> = Vec::new();
    push_trace(&mut effects, token, stage);
    effects.push(Effect::Release(keepalive));
    assert(effects@ =~= spec_release(keepalive, token, stage));
    effects
}

impl<K> DisplayUnit<K> {
    /// Takes the framebuffer off the card and gives the frame back.
    pub open spec fn retirement(self) -> Seq<Effect<K>> {
        seq![Effect::DestroyFramebuffer(self.fb), Effect::CloseHandles(self.handles)]
            + spec_release(self.keepalive, self.trace_token, TraceStage::NativeReleaseDisplayed)
    }

    fn retire(self, effects: &mut Vec<Effect<K>>)
        ensures
            final(effects)@ == old(effects)@ + self.retirement(),
    {
        effects.push(Effect::DestroyFramebuffer(self.fb));
        effects.push(Effect::CloseHandles(self.handles));
        push_trace(effects, self.trace_token, TraceStage::NativeReleaseDisplayed);
        effects.push(Effect::Release(self.keepalive));
        assert(effects@ =~= old(effects)@ + self.retirement());
    }
}

/// The keepalives among the effects, in order.
pub open spec fn released<K>(effects: Seq<Effect<K>>) -> Seq<K>
    decreases effects.len(),
{
    if effects.len() == 0 {
        seq![]
    } else {
        let before = released(effects.drop_last());
        match effects.last() {
            Effect::Release(keepalive) => before.push(keepalive),
            _ => before,
        }
    }
}

pub(crate) proof fn lemma_released_push<K>(effects: Seq<Effect<K>>, effect: Effect<K>)
    ensures
        released(effects.push(effect)) == (match effect {
            Effect::Release(keepalive) => released(effects).push(keepalive),
            _ => released(effects),
        }),
{
    assert(effects.push(effect).drop_last() =~= effects);
}

pub(crate) proof fn lemma_released_trace<K>(
    effects: Seq<Effect<K>>,
    token: Option<TraceToken>,
    stage: TraceStage,
)
    ensures
        released(effects + trace_effects::<K>(token, stage)) == released(effects),
{
    let traced = effects + trace_effects::<K>(token, stage);
    match token {
        Some(t) if t.sampled => {
            assert(traced =~= effects.push(Effect::Trace(stage, t)));
            lemma_released_push(effects, Effect::Trace(stage, t));
        },
        _ => {
            assert(traced =~= effects);
        },
    }
}

pub(crate) proof fn lemma_released_retirement<K>(effects: Seq<Effect<K>>, unit: DisplayUnit<K>)
    ensures
        released(effects + unit.retirement()) == released(effects).push(unit.keepalive),
{
    let destroyed = effects.push(Effect::DestroyFramebuffer(unit.fb));
    let closed = destroyed.push(Effect::CloseHandles(unit.handles));
    let traced = closed + trace_effects::<K>(
        unit.trace_token,
        TraceStage::NativeReleaseDisplayed,
    );
    lemma_released_push(effects, Effect::DestroyFramebuffer(unit.fb));
    lemma_released_push(destroyed, Effect::CloseHandles(unit.handles));
    lemma_released_trace(closed, unit.trace_token, TraceStage::NativeReleaseDisplayed);
    lemma_released_push(traced, Effect::Release(unit.keepalive));
    assert(effects + unit.retirement() =~= traced.push(Effect::Release(unit.keepalive)));
}

pub(crate) proof fn lemma_released_release<K>(
    effects: Seq<Effect<K>>,
    keepalive: K,
    token: Option<TraceToken>,
    stage: TraceStage,
)
    ensures
        released(effects + spec_release(keepalive, token, stage)) == released(effects).push(
            keepalive,
        ),
{
    let traced = effects + trace_effects::<K>(token, stage);
    lemma_released_trace(effects, token, stage);
    lemma_released_push(traced, Effect::Release(keepalive));
    assert(effects + spec_release(keepalive, token, stage) =~= traced.push(
        Effect::Release(keepalive),
    ));
}

pub(crate) proof fn lemma_released_retirements<K>(
    first: Option<DisplayUnit<K>>,
    second: Option<DisplayUnit<K>>,
)
    ensures
        released(retirement_of(first)) == keepalive_of(first),
        released(retirement_of(first) + retirement_of(second)) == keepalive_of(first)
            + keepalive_of(second),
{
    if let Some(unit) = first {
        lemma_released_retirement(Seq::empty(), unit);
        assert(Seq::empty() + unit.retirement() =~= unit.retirement());
        assert(released(retirement_of(first)) =~= keepalive_of(first));
    }
    if let Some(unit) = second {
        lemma_released_retirement(retirement_of(first), unit);
        assert(keepalive_of(first).push(unit.keepalive) =~= keepalive_of(first) + keepalive_of(
            second,
        ));
    } else {
        assert(retirement_of(first) + retirement_of(second) =~= retirement_of(first));
        assert(keepalive_of(first) + keepalive_of(second) =~= keepalive_of(first));
    }
}

/// The frames on the card. The last committed one is on its way to the screen, and the one
/// before it may still be shown until the next commit.
pub struct ScanoutState<K> {
    pub setup: bool,
    pub stale: Option<DisplayUnit<K>>,
    pub in_flight: Option<DisplayUnit<K>>,
}

/// The effects of retiring a frame, if there is one.
pub open spec fn retirement_of<K>(unit: Option<DisplayUnit<K>>) -> Seq<Effect<K>> {
    match unit {
        Some(u) => u.retirement(),
        None => seq![],
    }
}

/// The effects of dropping what is on the card.
pub open spec fn shut_down_effects<K>(card: Option<ScanoutState<K>>) -> Seq<Effect<K>> {
    match card {
        Some(state) => retirement_of(state.stale) + retirement_of(state.in_flight),
        None => seq![],
    }
}

pub open spec fn keepalive_of<K>(unit: Option<DisplayUnit<K>>) -> Seq<K> {
    match unit {
        Some(u) => seq![u.keepalive],
        None => seq![],
    }
}

impl<K> ScanoutState<K> {
    /// Frames fill the slots from the last one on.
    pub open spec fn wf(self) -> bool {
        self.stale is Some ==> self.in_flight is Some
    }

    /// What keeps the frames on the card alive, oldest first.
    pub open spec fn held(self) -> Seq<K> {
        keepalive_of(self.stale) + keepalive_of(self.in_flight)
    }

    pub fn new() -> (r: ScanoutState<K>)
        ensures
            r.wf(),
            !r.setup,
            r.stale is None,
            r.in_flight is None,
    {
        ScanoutState { setup: false, stale: None, in_flight: None }
    }

    pub open spec fn spec_commit_mode(self) -> CommitMode {
        if self.stale is None && self.in_flight is None {
            CommitMode::AllowModeset
        } else {
            CommitMode::Plain
        }
    }

    /// The request that shows `fb`, and how it is committed. The first request also sets the
    /// display up; it is not set up again, whether or not the commit succeeds.
    pub fn prepare(&mut self, p: &Pipeline, fb: u32, mode_blob: u64, w: u32, h: u32) -> (r: (
        Vec<Assignment>,
        CommitMode,
    ))
        ensures
            r.0@ == modeset::spec_import_request(*p, old(self).setup, fb, mode_blob, w, h),
            r.1 == old(self).spec_commit_mode(),
            !old(self).setup ==> modeset::covers_display(r.0@, *p, w, h),
            modeset::shows_framebuffer(r.0@, *p, fb),
            final(self).setup,
            final(self).stale == old(self).stale,
            final(self).in_flight == old(self).in_flight,
    {
        let request = modeset::import_request(p, self.setup, fb, mode_blob, w, h);
        self.setup = true;
        let mode = if self.stale.is_none() && self.in_flight.is_none() {
            CommitMode::AllowModeset
        } else {
            CommitMode::Plain
        };
        (request, mode)
    }

    /// A frame was committed: the frame that nothing shows any more is retired.
    pub fn committed(&mut self, unit: DisplayUnit<K>) -> (r: Vec<Effect<K>>)
        requires
            old(self).wf(),
        ensures
            r@ == retirement_of(old(self).stale) + trace_effects::<K>(
                unit.trace_token,
                TraceStage::NativeSubmit,
            ),
            final(self).setup == old(self).setup,
            final(self).stale == old(self).in_flight,
            final(self).in_flight == Some(unit),
            final(self).wf(),
            released(r@) + final(self).held() == old(self).held().push(unit.keepalive),
    {
        let mut effects: Vec<Effect<K>> = Vec::new();
        let ghost stale = self.stale;
        if let Some(stale) = self.stale.take() {
            stale.retire(&mut effects);
        }
        assert(effects@ =~= retirement_of(stale));
        self.stale = self.in_flight.take();
        push_trace(&mut effects, unit.trace_token, TraceStage::NativeSubmit);
        proof {
            lemma_released_trace(
                retirement_of(stale),
                unit.trace_token,
                TraceStage::NativeSubmit,
            );
            lemma_released_retirements(stale, None);
        }
        self.in_flight = Some(unit);
        assert(released(effects@) + self.held() =~= old(self).held().push(unit.keepalive));
        effects
    }

    /// The display goes away: every frame on the card is retired, oldest first.
    pub fn shut_down(&mut self) -> (r: Vec<Effect<K>>)
        ensures
            r@ == shut_down_effects(Some(*old(self))),
            final(self).setup == old(self).setup,
            final(self).stale is None,
            final(self).in_flight is None,
            released(r@) == old(self).held(),
    {
        let mut effects: Vec<Effect<K>> = Vec::new();
        let ghost stale = self.stale;
        let ghost in_flight = self.in_flight;
        if let Some(unit) = self.stale.take() {
            unit.retire(&mut effects);
        }
        assert(effects@ =~= retirement_of(stale));
        if let Some(unit) = self.in_flight.take() {
            unit.retire(&mut effects);
        }
        assert(effects@ =~= retirement_of(stale) + retirement_of(in_flight));
        proof {
            lemma_released_retirements(stale, in_flight);
            assert(released(effects@) =~= old(self).held());
        }
        effects
    }
}

/// The frame never reached the card; it stays with the caller.
pub fn import_failed<K>(token: Option<TraceToken>) -> (r: Vec<Effect<K>>)
    ensures
        r@ == trace_effects::<K>(token, TraceStage::NativeSubmitError),
        released(r@).len() == 0,
{
    let mut effects: Vec<Effect<K>> = Vec::new();
    push_trace(&mut effects, token, TraceStage::NativeSubmitError);
    proof {
        lemma_released_trace(Seq::<Effect<K>>::empty(), token, TraceStage::NativeSubmitError);
        assert(Seq::<Effect<K>>::empty() + trace_effects::<K>(token, TraceStage::NativeSubmitError)
            =~= effects@);
    }
    effects
}

/// The commit failed: the new framebuffer is taken off the card, and the frame stays with the
/// caller.
pub fn commit_failed<K>(fb: u32, handles: [Option<u32>; 4], token: Option<TraceToken>) -> (r: Vec<
    Effect<K>,
>)
    ensures
        r@ == seq![Effect::DestroyFramebuffer(fb), Effect::CloseHandles(handles)]
            + trace_effects::<K>(token, TraceStage::NativeSubmitError),
        released(r@).len() == 0,
{
    let mut effects: Vec<Effect<K>> = vec![
        Effect::DestroyFramebuffer(fb),
        Effect::CloseHandles(handles),
    ];
    proof {
        let first = Seq::<Effect<K>>::empty().push(Effect::DestroyFramebuffer(fb));
        lemma_released_push(Seq::<Effect<K>>::empty(), Effect::DestroyFramebuffer(fb));
        lemma_released_push(first, Effect::CloseHandles(handles));
        assert(effects@ =~= first.push(Effect::CloseHandles(handles)));
        lemma_released_trace(effects@, token, TraceStage::NativeSubmitError);
    }
    push_trace(&mut effects, token, TraceStage::NativeSubmitError);
    effects
}

/// The frames on the card after the commits, and the keepalives that were released on the way.
pub open spec fn after_commits<K>(
    state: ScanoutState<K>,
    units: Seq<DisplayUnit<K>>,
) -> (ScanoutState<K>, Seq<K>)
    decreases units.len(),
{
    if units.len() == 0 {
        (state, seq![])
    } else {
        let (before, gone) = after_commits(state, units.drop_last());
        (
            ScanoutState {
                setup: before.setup,
                stale: before.in_flight,
                in_flight: Some(units.last()),
            },
            gone + keepalive_of(before.stale),
        )
    }
}

/// Frames are given back in the order in which they were committed, each once, and never more
/// than two are held.
pub proof fn frames_are_released_in_order<K>(
    state: ScanoutState<K>,
    units: Seq<DisplayUnit<K>>,
)
    requires
        state.wf(),
    ensures
        ({
            let (end, gone) = after_commits(state, units);
            &&& end.wf()
            &&& gone + end.held() == state.held() + units.map_values(
                |u: DisplayUnit<K>| u.keepalive,
            )
            &&& end.held().len() <= 2
        }),
    decreases units.len(),
{
    let keepalives = units.map_values(|u: DisplayUnit<K>| u.keepalive);
    let (end, gone) = after_commits(state, units);
    if units.len() == 0 {
        assert(gone + end.held() =~= state.held() + keepalives);
    } else {
        let front = units.drop_last();
        frames_are_released_in_order(state, front);
        let (before, gone_before) = after_commits(state, front);
        let keepalives_before = front.map_values(|u: DisplayUnit<K>| u.keepalive);
        assert(keepalives =~= keepalives_before.push(units.last().keepalive));
        assert(gone + end.held() =~= (gone_before + before.held()).push(units.last().keepalive));
        assert(gone + end.held() =~= state.held() + keepalives);
    }
}

/// A frame is still held when the next one has been committed, and given back with the one
/// after that.
pub proof fn frame_outlives_the_next_commit<K>(
    state: ScanoutState<K>,
    unit: DisplayUnit<K>,
    next: DisplayUnit<K>,
    later: DisplayUnit<K>,
)
    ensures
        after_commits(state, seq![unit, next]).0.stale == Some(unit),
        after_commits(state, seq![unit, next, later]).1.last() == unit.keepalive,
{
    assert(seq![unit, next, later].drop_last() =~= seq![unit, next]);
    assert(seq![unit, next].drop_last() =~= seq![unit]);
    assert(seq![unit].drop_last() =~= seq![]);
    reveal_with_fuel(after_commits, 4);
}

/// A frame that is sampled is traced once, at the stage it has reached; other frames are not
/// traced at all.
pub proof fn only_sampled_frames_are_traced<K>(
    token: Option<TraceToken>,
    stage: TraceStage,
    effect: Effect<K>,
)
    ensures
        trace_effects::<K>(token, stage).contains(effect) <==> token is Some && token->0.sampled
            && effect == Effect::<K>::Trace(stage, token->0),
        trace_effects::<K>(token, stage).len() == (if token is Some && token->0.sampled {
            1int
        } else {
            0
        }),
{
    let effects = trace_effects::<K>(token, stage);
    if token is Some && token->0.sampled {
        assert(effects[0] == Effect::<K>::Trace(stage, token->0));
    }
}

/// A frame that is given back is traced first, where it is sampled, and released last.
pub proof fn released_frames_are_traced_first<K>(
    keepalive: K,
    token: Option<TraceToken>,
    stage: TraceStage,
)
    ensures
        ({
            let effects = spec_release(keepalive, token, stage);
            let sampled = token is Some && token->0.sampled;
            &&& effects.len() == if sampled {
                2int
            } else {
                1
            }
            &&& effects[effects.len() - 1] == Effect::Release(keepalive)
            &&& sampled ==> effects[0] == Effect::<K>::Trace(stage, token->0)
        }),
{
}

/// A frame that is taken off the card: its own framebuffer is destroyed, its own handles are
/// closed, its owner gets its own memory back, and the trace says that it had been displayed.
pub proof fn retired_frames_leave_nothing_behind<K>(unit: DisplayUnit<K>)
    ensures
        ({
            let effects = unit.retirement();
            let sampled = unit.trace_token is Some && unit.trace_token->0.sampled;
            &&& effects.len() == if sampled {
                4int
            } else {
                3
            }
            &&& effects[0] == Effect::<K>::DestroyFramebuffer(unit.fb)
            &&& effects[1] == Effect::<K>::CloseHandles(unit.handles)
            &&& effects[effects.len() - 1] == Effect::Release(unit.keepalive)
            &&& sampled ==> effects[2] == Effect::<K>::Trace(
                TraceStage::NativeReleaseDisplayed,
                unit.trace_token->0,
            )
        }),
{
}

/// A commit may light the display up only while nothing is on the card.
pub proof fn modesets_happen_on_an_empty_card<K>(state: ScanoutState<K>)
    ensures
        state.spec_commit_mode() is AllowModeset <==> state.stale is None
            && state.in_flight is None,
        !(state.spec_commit_mode() is AllowModeset) ==> state.spec_commit_mode() is Plain,
{
}

/// The frames on the card are those in the two slots, the older one first.
pub proof fn held_frames_are_those_in_the_slots<K>(state: ScanoutState<K>)
    ensures
        state.held().len() == (if state.stale is Some {
            1int
        } else {
            0
        }) + (if state.in_flight is Some {
            1int
        } else {
            0
        }),
        state.stale matches Some(unit) ==> state.held()[0] == unit.keepalive,
        state.in_flight matches Some(unit) ==> state.held()[state.held().len() - 1]
            == unit.keepalive,
{
}

/// A display that goes away takes all its frames off the card, the older one first, and does
/// nothing else.
pub proof fn shut_down_retires_both_frames<K>(state: ScanoutState<K>)
    ensures
        ({
            let effects = shut_down_effects(Some(state));
            let first = match state.stale {
                Some(unit) => unit.retirement(),
                None => seq![],
            };
            let second = match state.in_flight {
                Some(unit) => unit.retirement(),
                None => seq![],
            };
            &&& effects.len() == first.len() + second.len()
            &&& effects.take(first.len() as int) == first
            &&& effects.skip(first.len() as int) == second
        }),
        shut_down_effects(None::<ScanoutState<K>>).len() == 0,
{
    let effects = shut_down_effects(Some(state));
    let n = retirement_of(state.stale).len() as int;
    assert(effects.take(n) =~= retirement_of(state.stale));
    assert(effects.skip(n) =~= retirement_of(state.in_flight));
}

/// Submitting takes time that is reported, whether or not it succeeds; giving back does not.
pub proof fn submissions_are_timed(stage: TraceStage)
    ensures
        stage is NativeSubmit || stage is NativeSubmitError ==> stage.spec_is_timed(),
        stage is NativeReleaseReplaced || stage is NativeReleaseDisplayed
            || stage is NativeReleasePending ==> !stage.spec_is_timed(),
{
}

} // verus!
