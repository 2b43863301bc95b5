//! Putting an imported frame on the screen, from its descriptors to the commit.
use crate::error::{Error, ErrorKind};
use crate::import::{
    self, clash_text, is_modifier_clash, modifiers, PrimeImage, PrimePlanarBuf,
};
use crate::modeset::{self, Assignment, CommitMode, Pipeline};
use crate::scanout::{
    self, lemma_released_release, released, retirement_of, spec_release, trace_effects, DisplayUnit,
    Effect, ScanoutState, TraceStage, TraceToken,
};
use crate::text::decimal_text;
use std::io;
use vstd::prelude::*;

verus! {

/// An imported frame with what keeps it alive.
pub struct PrimeDesc<K> {
    pub image: PrimeImage,
    pub keepalive: K,
    pub trace_token: Option<TraceToken>,
}

/// What keeps the frames alive, in order.
pub open spec fn keepalives<K>(descs: Seq<PrimeDesc<K>>) -> Seq<K> {
    descs.map_values(|desc: PrimeDesc<K>| desc.keepalive)
}

/// All the frames are given back, one after the other.
pub open spec fn spec_release_all<K>(descs: Seq<PrimeDesc<K>>, stage: TraceStage) -> Seq<Effect<K>>
    decreases descs.len(),
{
    if descs.len() == 0 {
        seq![]
    } else {
        let last = descs.last();
        spec_release_all(descs.drop_last(), stage) + spec_release(
            last.keepalive,
            last.trace_token,
            stage,
        )
    }
}

pub(crate) proof fn lemma_released_all<K>(descs: Seq<PrimeDesc<K>>, stage: TraceStage)
    ensures
        released(spec_release_all(descs, stage)) == keepalives(descs),
    decreases descs.len(),
{
    if descs.len() > 0 {
        let front = descs.drop_last();
        let last = descs.last();
        lemma_released_all(front, stage);
        lemma_released_release(
            spec_release_all(front, stage),
            last.keepalive,
            last.trace_token,
            stage,
        );
        assert(keepalives(descs) =~= keepalives(front).push(last.keepalive));
    } else {
        assert(keepalives(descs) =~= seq![]);
    }
}

/// Gives back frames that are not on the card, in order and each once.
pub fn release_all<K>(descs: Vec<PrimeDesc<K>>, stage: TraceStage) -> (r: Vec<Effect<K>>)
    ensures
        r@ == spec_release_all(descs@, stage),
        released(r@) == keepalives(descs@),
{
    let mut left = descs;
    let mut effects: Vec<Effect<K>> = Vec::new();
    let ghost mut done: int = 0;
    while left.len() > 0
        invariant
            0 <= done <= descs@.len(),
            left@ == descs@.skip(done),
            effects@ == spec_release_all(descs@.take(done), stage),
        decreases left.len(),
    {
        let desc = left.remove(0);
        let mut one = scanout::release_prime_desc(desc.keepalive, desc.trace_token, stage);
        effects.append(&mut one);
        proof {
            assert(descs@.take(done + 1).drop_last() =~= descs@.take(done));
            assert(descs@.skip(done).remove(0) =~= descs@.skip(done + 1));
            done = done + 1;
        }
    }
    proof {
        assert(descs@.take(done) =~= descs@);
        lemma_released_all(descs@, stage);
    }
    effects
}

/// A frame that was not shown. It goes back to the caller, who may show it later.
pub struct Refusal<K> {
    pub error: Error,
    pub desc: PrimeDesc<K>,
    pub effects: Vec<Effect<K>>,
}

/// The handles are closed and the failure is traced.
pub open spec fn failed_import<K>(
    handles: Option<[Option<u32>; 4]>,
    token: Option<TraceToken>,
    effects: Seq<Effect<K>>,
) -> bool {
    let traced = trace_effects::<K>(token, TraceStage::NativeSubmitError);
    match handles {
        Some(slots) => effects == seq![Effect::CloseHandles(slots)] + traced,
        None => effects == traced,
    }
}

/// The framebuffer is taken off the card and the failure is traced.
pub open spec fn failed_commit<K>(
    fb: u32,
    handles: [Option<u32>; 4],
    token: Option<TraceToken>,
    effects: Seq<Effect<K>>,
) -> bool {
    effects == seq![Effect::DestroyFramebuffer(fb), Effect::CloseHandles(handles)]
        + trace_effects::<K>(token, TraceStage::NativeSubmitError)
}

/// The frame was committed: it is the newest on the card, and the oldest was retired.
pub open spec fn is_commit<K>(
    before: ScanoutState<K>,
    desc: PrimeDesc<K>,
    after: ScanoutState<K>,
    effects: Seq<Effect<K>>,
) -> bool {
    &&& after.stale == before.in_flight
    &&& after.in_flight matches Some(unit) && unit.keepalive == desc.keepalive && unit.trace_token
        == desc.trace_token
    &&& effects == retirement_of(before.stale) + trace_effects::<K>(
        desc.trace_token,
        TraceStage::NativeSubmit,
    )
}

/// The slots hold the handles, in order, and nothing else.
pub open spec fn slots_hold(slots: [Option<u32>; 4], gems: Seq<u32>) -> bool {
    forall|i: int|
        0 <= i < 4 ==> #[trigger] slots@[i] == (if i < gems.len() {
            Some(gems[i])
        } else {
            None
        })
}

fn refuse<K>(error: Error, desc: PrimeDesc<K>, gems: &Vec<u32>) -> (r: Refusal<K>)
    requires
        gems@.len() <= 4,
    ensures
        r.error == error,
        r.desc == desc,
        exists|slots: [Option<u32>; 4]| #[trigger]
            slots_hold(slots, gems@) && failed_import(Some(slots), desc.trace_token, r.effects@),
{
    let slots = import::handle_slots(gems);
    let mut effects: Vec<Effect<K>> = vec![Effect::CloseHandles(slots)];
    let mut trace = scanout::import_failed(desc.trace_token);
    effects.append(&mut trace);
    assert(slots_hold(slots, gems@));
    assert(effects@ =~= seq![Effect::CloseHandles(slots)] + trace_effects::<K>(
        desc.trace_token,
        TraceStage::NativeSubmitError,
    ));
    Refusal { error, desc, effects }
}

/// A frame whose memory objects are being imported.
pub struct Importing<K> {
    pub desc: PrimeDesc<K>,
    /// The handles of the objects that were imported.
    pub gems: Vec<u32>,
}

impl<K> Importing<K> {
    pub open spec fn wf(self) -> bool {
        &&& self.desc.image.planes@.len() > 0
        &&& self.gems@.len() <= self.desc.image.objects@.len()
        &&& self.gems@.len() <= 4
    }

    /// Begins with a frame. One without planes is refused.
    pub fn new(desc: PrimeDesc<K>) -> (r: Result<Importing<K>, Refusal<K>>)
        ensures
            match r {
                Ok(importing) => importing.wf() && importing.desc == desc && importing.gems@.len()
                    == 0,
                Err(refusal) => {
                    &&& desc.image.planes@.len() == 0
                    &&& refusal.error.says(ErrorKind::Other, "PrimeDesc has no planes"@)
                    &&& refusal.desc == desc
                    &&& failed_import(None, desc.trace_token, refusal.effects@)
                },
            },
    {
        match desc.image.check_planes() {
            Ok(()) => Ok(Importing { desc, gems: Vec::new() }),
            Err(error) => {
                let effects = scanout::import_failed(desc.trace_token);
                Err(Refusal { error, desc, effects })
            },
        }
    }

    /// The descriptor of the object that is to be imported now, if any is left.
    pub fn next_fd(&self) -> (r: Option<i32>)
        requires
            self.wf(),
        ensures
            r == (if self.gems@.len() < self.desc.image.objects@.len() {
                Some(self.desc.image.objects@[self.gems@.len() as int].fd)
            } else {
                None
            }),
    {
        if self.gems.len() < self.desc.image.objects.len() {
            Some(self.desc.image.objects[self.gems.len()].fd)
        } else {
            None
        }
    }

    /// The object was imported under this handle. There is room for four.
    pub fn imported(&mut self, gem: u32)
        requires
            old(self).wf(),
            old(self).gems@.len() < old(self).desc.image.objects@.len(),
            old(self).gems@.len() < 4,
        ensures
            final(self).wf(),
            final(self).desc == old(self).desc,
            final(self).gems@ == old(self).gems@.push(gem),
    {
        self.gems.push(gem);
    }

    /// The object could not be imported. Those before it are closed.
    pub fn import_failed(self) -> (r: Refusal<K>)
        requires
            self.wf(),
        ensures
            r.error.says(
                ErrorKind::Other,
                "prime_fd_to_buffer failed on plane "@ + decimal_text(self.gems@.len()),
            ),
            r.desc == self.desc,
            exists|slots: [Option<u32>; 4]| #[trigger]
                slots_hold(slots, self.gems@) && failed_import(
                    Some(slots),
                    self.desc.trace_token,
                    r.effects@,
                ),
    {
        let error = import::object_import_failed(self.gems.len());
        refuse(error, self.desc, &self.gems)
    }

    /// Describes the frame to the card, once all objects were imported. A frame whose objects
    /// have different modifiers is refused.
    pub fn describe(self) -> (r: Result<Described<K>, Refusal<K>>)
        requires
            self.wf(),
            self.gems@.len() == self.desc.image.objects@.len(),
            self.desc.image.planes_fit(),
        ensures
            match r {
                Ok(described) => {
                    &&& described.wf()
                    &&& described.desc == self.desc
                    &&& described.gems == self.gems
                    &&& described.buf.describes(self.desc.image, self.gems@)
                },
                Err(refusal) => {
                    &&& exists|first: u64, other: u64| #[trigger]
                        is_modifier_clash(modifiers(self.desc.image.objects@), first, other)
                            && refusal.error.says(ErrorKind::Other, clash_text(first, other))
                    &&& refusal.desc == self.desc
                    &&& exists|slots: [Option<u32>; 4]| #[trigger]
                        slots_hold(slots, self.gems@) && failed_import(
                            Some(slots),
                            self.desc.trace_token,
                            refusal.effects@,
                        )
                },
            },
    {
        match import::planar_buffer(&self.desc.image, &self.gems) {
            Ok(buf) => Ok(Described { desc: self.desc, gems: self.gems, buf }),
            Err(error) => Err(refuse(error, self.desc, &self.gems)),
        }
    }
}

/// A frame that was described to the card.
pub struct Described<K> {
    pub desc: PrimeDesc<K>,
    pub gems: Vec<u32>,
    pub buf: PrimePlanarBuf,
}

impl<K> Described<K> {
    pub open spec fn wf(self) -> bool {
        self.gems@.len() <= 4
    }

    /// The card did not take the frame. The objects are closed.
    pub fn rejected(self) -> (r: Refusal<K>)
        requires
            self.wf(),
        ensures
            r.error.says(ErrorKind::Other, "add_planar_framebuffer failed"@),
            r.desc == self.desc,
            exists|slots: [Option<u32>; 4]| #[trigger]
                slots_hold(slots, self.gems@) && failed_import(
                    Some(slots),
                    self.desc.trace_token,
                    r.effects@,
                ),
    {
        refuse(import::framebuffer_failed(), self.desc, &self.gems)
    }

    /// The card took the frame as `fb`. Returns what is to be committed, and how.
    pub fn prepare(
        self,
        fb: u32,
        state: &mut ScanoutState<K>,
        p: &Pipeline,
        mode_blob: u64,
    ) -> (r: (Ready<K>, Vec<Assignment>, CommitMode))
        ensures
            r.0.desc == self.desc,
            r.0.fb == fb,
            r.0.handles == self.buf.handles,
            r.1@ == modeset::spec_import_request(
                *p,
                old(state).setup,
                fb,
                mode_blob,
                self.desc.image.width,
                self.desc.image.height,
            ),
            r.2 == old(state).spec_commit_mode(),
            !old(state).setup ==> modeset::covers_display(
                r.1@,
                *p,
                self.desc.image.width,
                self.desc.image.height,
            ),
            modeset::shows_framebuffer(r.1@, *p, fb),
            *final(state) == (ScanoutState { setup: true, ..*old(state) }),
    {
        let (request, mode) = state.prepare(
            p,
            fb,
            mode_blob,
            self.desc.image.width,
            self.desc.image.height,
        );
        (Ready { desc: self.desc, fb, handles: self.buf.handles }, request, mode)
    }
}

/// A frame that is on the card and waits for its commit.
pub struct Ready<K> {
    pub desc: PrimeDesc<K>,
    pub fb: u32,
    pub handles: [Option<u32>; 4],
}

impl<K> Ready<K> {
    /// The commit failed. The frame is taken off the card, and the error keeps its kind.
    pub fn commit_failed(self, kind: io::ErrorKind, cause: &str) -> (r: Refusal<K>)
        ensures
            r.error.says(ErrorKind::System(kind), "atomic commit"@ + ": "@ + cause@),
            r.desc == self.desc,
            failed_commit(self.fb, self.handles, self.desc.trace_token, r.effects@),
    {
        let error = Error::in_step(ErrorKind::System(kind), "atomic commit", cause);
        let effects = scanout::commit_failed(self.fb, self.handles, self.desc.trace_token);
        Refusal { error, desc: self.desc, effects }
    }

    /// The frame is on its way to the screen. The frame before the last one is retired.
    pub fn committed(self, state: &mut ScanoutState<K>) -> (r: Vec<Effect<K>>)
        requires
            old(state).wf(),
        ensures
            is_commit(*old(state), self.desc, *final(state), r@),
            final(state).wf(),
            final(state).setup == old(state).setup,
            final(state).in_flight == Some(
                (DisplayUnit {
                    fb: self.fb,
                    handles: self.handles,
                    keepalive: self.desc.keepalive,
                    trace_token: self.desc.trace_token,
                }),
            ),
            released(r@) + final(state).held() == old(state).held().push(self.desc.keepalive),
    {
        state.committed(
            DisplayUnit {
                fb: self.fb,
                handles: self.handles,
                keepalive: self.desc.keepalive,
                trace_token: self.desc.trace_token,
            },
        )
    }
}

/// A failed import never gives the frame back to its owner: the caller still has it.
pub proof fn refused_frames_are_not_released<K>(
    handles: Option<[Option<u32>; 4]>,
    token: Option<TraceToken>,
    effects: Seq<Effect<K>>,
)
    requires
        failed_import(handles, token, effects),
    ensures
        released(effects).len() == 0,
{
    reveal_with_fuel(released, 3);
    if effects.len() == 2 {
        assert(effects.drop_last().drop_last() =~= seq![]);
    } else if effects.len() == 1 {
        assert(effects.drop_last() =~= seq![]);
    }
}

/// What keeps the frames alive, frame by frame.
pub proof fn keepalives_are_those_of_the_frames<K>(descs: Seq<PrimeDesc<K>>, i: int)
    ensures
        keepalives(descs).len() == descs.len(),
        0 <= i < descs.len() ==> keepalives(descs)[i] == descs[i].keepalive,
{
}

/// All frames that are given back at once get their memory released and are traced at that stage
/// where they are sampled.
pub proof fn every_frame_is_released_and_traced<K>(
    descs: Seq<PrimeDesc<K>>,
    stage: TraceStage,
    i: int,
)
    requires
        0 <= i < descs.len(),
    ensures
        spec_release_all(descs, stage).contains(Effect::Release(descs[i].keepalive)),
        descs[i].trace_token matches Some(t) ==> t.sampled ==> spec_release_all(
            descs,
            stage,
        ).contains(Effect::Trace(stage, t)),
    decreases descs.len(),
{
    let front = descs.drop_last();
    let last = descs.last();
    let before = spec_release_all(front, stage);
    let one = spec_release(last.keepalive, last.trace_token, stage);
    let all = spec_release_all(descs, stage);
    assert(all == before + one);
    let n = before.len() as int;
    if i < front.len() {
        every_frame_is_released_and_traced(front, stage, i);
        let k = choose|k: int|
            0 <= k < before.len() && before[k] == Effect::Release(descs[i].keepalive);
        assert(all[k] == before[k]);
        if let Some(t) = descs[i].trace_token {
            if t.sampled {
                let k = choose|k: int|
                    0 <= k < before.len() && before[k] == Effect::<K>::Trace(stage, t);
                assert(all[k] == before[k]);
            }
        }
    } else {
        scanout::released_frames_are_traced_first(last.keepalive, last.trace_token, stage);
        assert(all[n + one.len() - 1] == one[one.len() - 1]);
        assert(all[n] == one[0]);
    }
}

/// Nothing else happens to frames that are given back: each effect releases or traces one of them.
pub proof fn release_touches_nothing_else<K>(
    descs: Seq<PrimeDesc<K>>,
    stage: TraceStage,
    e: int,
)
    requires
        0 <= e < spec_release_all(descs, stage).len(),
    ensures
        match spec_release_all(descs, stage)[e] {
            Effect::Release(keepalive) => exists|i: int|
                0 <= i < descs.len() && (#[trigger] descs[i]).keepalive == keepalive,
            Effect::Trace(at, t) => at == stage && t.sampled && exists|i: int|
                0 <= i < descs.len() && (#[trigger] descs[i]).trace_token == Some(t),
            _ => false,
        },
    decreases descs.len(),
{
    let front = descs.drop_last();
    let last = descs.last();
    let before = spec_release_all(front, stage);
    let one = spec_release(last.keepalive, last.trace_token, stage);
    if descs.len() > 0 {
        assert(descs[descs.len() - 1] == last);
        if e < before.len() {
            release_touches_nothing_else(front, stage, e);
            match before[e] {
                Effect::Release(keepalive) => {
                    let i = choose|i: int|
                        0 <= i < front.len() && (#[trigger] front[i]).keepalive == keepalive;
                    assert(descs[i] == front[i]);
                },
                Effect::Trace(at, t) => {
                    let i = choose|i: int|
                        0 <= i < front.len() && (#[trigger] front[i]).trace_token == Some(t);
                    assert(descs[i] == front[i]);
                },
                _ => {},
            }
        } else {
            scanout::released_frames_are_traced_first(last.keepalive, last.trace_token, stage);
            assert(spec_release_all(descs, stage)[e] == one[e - before.len()]);
        }
    }
}

/// A failed import closes the handles that there are, says so in the trace where the frame is
/// sampled, and does nothing else.
pub proof fn failed_imports_close_their_handles<K>(
    handles: Option<[Option<u32>; 4]>,
    token: Option<TraceToken>,
    effects: Seq<Effect<K>>,
)
    requires
        failed_import(handles, token, effects),
    ensures
        ({
            let closed = if handles is Some {
                1int
            } else {
                0
            };
            let sampled = token is Some && token->0.sampled;
            &&& effects.len() == closed + if sampled {
                1int
            } else {
                0
            }
            &&& handles matches Some(slots) ==> effects[0] == Effect::<K>::CloseHandles(slots)
            &&& sampled ==> effects[closed] == Effect::<K>::Trace(
                TraceStage::NativeSubmitError,
                token->0,
            )
        }),
{
}

/// A failed commit destroys the framebuffer, closes its handles, says so in the trace where the
/// frame is sampled, and does nothing else.
pub proof fn failed_commits_take_the_frame_off<K>(
    fb: u32,
    handles: [Option<u32>; 4],
    token: Option<TraceToken>,
    effects: Seq<Effect<K>>,
)
    requires
        failed_commit(fb, handles, token, effects),
    ensures
        ({
            let sampled = token is Some && token->0.sampled;
            &&& effects.len() == if sampled {
                3int
            } else {
                2
            }
            &&& effects[0] == Effect::<K>::DestroyFramebuffer(fb)
            &&& effects[1] == Effect::<K>::CloseHandles(handles)
            &&& sampled ==> effects[2] == Effect::<K>::Trace(
                TraceStage::NativeSubmitError,
                token->0,
            )
        }),
{
}

/// A commit moves the frames on by one slot: the new frame is the newest, the newest becomes the
/// older one, and what was the older one is taken off the card. The new frame is traced as
/// submitted where it is sampled.
pub proof fn commits_move_the_frames_on<K>(
    before: ScanoutState<K>,
    desc: PrimeDesc<K>,
    after: ScanoutState<K>,
    effects: Seq<Effect<K>>,
)
    requires
        is_commit(before, desc, after, effects),
    ensures
        after.stale == before.in_flight,
        after.in_flight matches Some(unit) && unit.keepalive == desc.keepalive && unit.trace_token
            == desc.trace_token,
        ({
            let gone = match before.stale {
                Some(unit) => unit.retirement(),
                None => seq![],
            };
            let sampled = desc.trace_token is Some && desc.trace_token->0.sampled;
            &&& effects.take(gone.len() as int) == gone
            &&& effects.len() == gone.len() + if sampled {
                1int
            } else {
                0
            }
            &&& sampled ==> effects[effects.len() - 1] == Effect::<K>::Trace(
                TraceStage::NativeSubmit,
                desc.trace_token->0,
            )
        }),
{
    let gone = retirement_of(before.stale);
    assert(effects.take(gone.len() as int) =~= gone);
}

/// The slots hold the handles in the order of their objects, and are empty behind the last.
pub proof fn slots_hold_the_handles(slots: [Option<u32>; 4], gems: Seq<u32>, i: int)
    requires
        slots_hold(slots, gems),
        0 <= i < 4,
    ensures
        i < gems.len() ==> slots@[i] == Some(gems[i]),
        i >= gems.len() ==> slots@[i] is None,
{
}

} // verus!
