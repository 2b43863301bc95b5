//! Raw frames: the buffers they are written to, and which of them may be written.
use crate::conversion::{self, conversion_fits, frame_written, spec_conversion};
use crate::copy::{holds_frame, holds_interleaved};
use crate::error::{Error, ErrorKind};
use crate::modeset::{self, Assignment, Pipeline};
use crate::pixel_format::PixelFormat;
use crate::topology::DisplayInfo;
use vstd::prelude::*;

verus! {

/// What a raw display was asked for.
#[derive(Clone, Copy, Debug)]
pub struct RawDisplayConfig {
    pub format: PixelFormat,
    pub frame_width: u32,
    pub frame_height: u32,
    pub preferred_mode: Option<(u32, u32, u32)>,
}

impl RawDisplayConfig {
    /// Bytes per frame.
    pub open spec fn spec_frame_size(self) -> int {
        self.format.spec_frame_size(self.frame_width as int, self.frame_height as int)
    }

    /// The size in bytes of the frames that the display takes.
    pub fn frame_size(self) -> (r: usize)
        requires
            self.format.frame_size_product(self.frame_width as int, self.frame_height as int)
                <= usize::MAX,
        ensures
            r == self.spec_frame_size(),
    {
        self.format.frame_size(self.frame_width, self.frame_height)
    }
}

/// Number of buffers that a raw display cycles through.
pub const BUFFER_COUNT: usize = 3;

/// A connected raw display, as far as its buffers are concerned.
#[derive(Clone, Copy, PartialEq, Eq, Structural, Debug)]
pub struct RawActiveDisplay {
    /// Number of buffers.
    pub buffers: usize,
    /// The buffer that is shown.
    pub current: usize,
    pub width: u32,
    pub height: u32,
    pub format: PixelFormat,
    pub fb_format: PixelFormat,
}

/// The slot is shown or being committed.
pub open spec fn is_taken(current: usize, committing_slot: Option<usize>, slot: usize) -> bool {
    slot == current || committing_slot == Some(slot)
}

/// The first slot that is neither shown nor being committed.
pub open spec fn is_first_free(
    buffers: usize,
    current: usize,
    committing_slot: Option<usize>,
    slot: usize,
) -> bool {
    &&& slot < buffers
    &&& !is_taken(current, committing_slot, slot)
    &&& forall|j: usize| j < slot ==> #[trigger] is_taken(current, committing_slot, j)
}

impl RawActiveDisplay {
    /// A display that shows the first of its buffers.
    pub fn new(width: u32, height: u32, format: PixelFormat, fb_format: PixelFormat) -> (r:
        RawActiveDisplay)
        ensures
            r == (RawActiveDisplay {
                buffers: BUFFER_COUNT,
                current: 0,
                width,
                height,
                format,
                fb_format,
            }),
    {
        RawActiveDisplay { buffers: BUFFER_COUNT, current: 0, width, height, format, fb_format }
    }

    /// Chooses the buffer for the next frame: the one whose frame was not shown yet, or else
    /// one that is neither shown nor being committed.
    pub fn choose_writable_slot(
        &self,
        pending_slot: Option<usize>,
        committing_slot: Option<usize>,
    ) -> (r: Result<usize, Error>)
        ensures
            match r {
                Ok(slot) => pending_slot == Some(slot) || (pending_slot is None && is_first_free(
                    self.buffers,
                    self.current,
                    committing_slot,
                    slot,
                )),
                Err(e) => {
                    &&& pending_slot is None
                    &&& forall|j: usize|
                        j < self.buffers ==> #[trigger] is_taken(
                            self.current,
                            committing_slot,
                            j,
                        )
                    &&& e.says(
                        ErrorKind::Other,
                        "no writable raw scanout buffer available"@,
                    )
                },
            },
    {
        if let Some(slot) = pending_slot {
            return Ok(slot);
        }
        let mut slot: usize = 0;
        while slot < self.buffers
            invariant
                slot <= self.buffers,
                pending_slot is None,
                forall|j: usize|
                    j < slot ==> #[trigger] is_taken(self.current, committing_slot, j),
            decreases self.buffers - slot,
        {
            let committing = match committing_slot {
                Some(c) => c == slot,
                None => false,
            };
            if slot != self.current && !committing {
                return Ok(slot);
            }
            slot += 1;
        }
        Err(Error::new(ErrorKind::Other, "no writable raw scanout buffer available"))
    }

    /// Checks a frame, and the buffer that it is to be written to.
    pub fn check_upload(&self, slot: usize, frame_len: usize) -> (r: Result<(), Error>)
        requires
            self.format.frame_size_product(self.width as int, self.height as int) <= usize::MAX,
        ensures
            match r {
                Ok(()) => {
                    &&& frame_len == self.format.spec_frame_size(
                        self.width as int,
                        self.height as int,
                    )
                    &&& slot < self.buffers
                },
                Err(e) => if frame_len != self.format.spec_frame_size(
                    self.width as int,
                    self.height as int,
                ) {
                    e.says(ErrorKind::InvalidInput, "invalid raw frame size"@)
                } else {
                    &&& slot >= self.buffers
                    &&& e.says(ErrorKind::InvalidInput, "invalid raw buffer slot"@)
                },
            },
    {
        if frame_len != self.format.frame_size(self.width, self.height) {
            return Err(Error::new(ErrorKind::InvalidInput, "invalid raw frame size"));
        }
        if slot >= self.buffers {
            return Err(Error::new(ErrorKind::InvalidInput, "invalid raw buffer slot"));
        }
        Ok(())
    }

    /// Writes a frame into the mapped buffer.
    pub fn upload_frame(&self, frame: &[u8], mapping: &mut [u8], pitch: usize) -> (r: Result<
        (),
        Error,
    >)
        requires
            spec_conversion(self.format, self.fb_format) matches Some(how) ==> conversion_fits(
                frame@.len() as int,
                old(mapping)@.len() as int,
                pitch as int,
                self.width as int,
                self.height as int,
                self.format,
                how,
            ),
        ensures
            match r {
                Ok(()) => spec_conversion(self.format, self.fb_format) matches Some(how)
                    && final(mapping)@ == frame_written(
                    old(mapping)@,
                    frame@,
                    pitch as int,
                    self.width as int,
                    self.height as int,
                    self.format,
                    how,
                ),
                Err(e) => {
                    &&& spec_conversion(self.format, self.fb_format) is None
                    &&& final(mapping)@ == old(mapping)@
                    &&& e.says(ErrorKind::Other, "unsupported raw framebuffer conversion"@)
                },
            },
            r is Ok <==> self.format == self.fb_format || self.format == PixelFormat::I420
                && self.fb_format == PixelFormat::NV12,
            self.format == self.fb_format && self.width * self.format.pixel_bytes() <= pitch
                ==> holds_frame(
                final(mapping)@,
                frame@,
                pitch as int,
                self.width as int,
                self.height as int,
                self.format,
            ),
            self.format == PixelFormat::I420 && self.fb_format == PixelFormat::NV12 && self.width
                <= pitch ==> holds_interleaved(
                final(mapping)@,
                frame@,
                pitch as int,
                self.width as int,
                self.height as int,
            ),
    {
        match conversion::conversion(self.format, self.fb_format) {
            Some(how) => {
                conversion::write_frame(
                    frame,
                    mapping,
                    pitch,
                    self.width,
                    self.height,
                    self.format,
                    how,
                );
                Ok(())
            },
            None => Err(Error::new(ErrorKind::Other, "unsupported raw framebuffer conversion")),
        }
    }
}

/// The request that shows the framebuffer in the given slot.
pub fn commit_request(p: &Pipeline, fbs: &Vec<u32>, slot: usize) -> (r: Result<
    Vec<Assignment>,
    Error,
>)
    ensures
        match r {
            Ok(req) => {
                &&& slot < fbs@.len()
                &&& req@ == modeset::spec_flip_request(*p, fbs@[slot as int])
                &&& modeset::shows_framebuffer(req@, *p, fbs@[slot as int])
            },
            Err(e) => slot >= fbs@.len() && e.says(
                ErrorKind::InvalidInput,
                "invalid raw buffer slot"@,
            ),
        },
{
    if slot >= fbs.len() {
        return Err(Error::new(ErrorKind::InvalidInput, "invalid raw buffer slot"));
    }
    Ok(modeset::flip_request(p, fbs[slot]))
}

/// Checks the size of a frame before anything else is done with it.
pub fn check_frame_size(frame_len: usize, frame_size: usize) -> (r: Result<(), Error>)
    ensures
        match r {
            Ok(()) => frame_len == frame_size,
            Err(e) => frame_len != frame_size && e.says(
                ErrorKind::InvalidInput,
                "invalid raw frame size"@,
            ),
        },
{
    if frame_len == frame_size {
        Ok(())
    } else {
        Err(Error::new(ErrorKind::InvalidInput, "invalid raw frame size"))
    }
}

/// What the callers that bring frames and the thread that shows them share.
pub struct RawDisplayState {
    /// The display, while one is connected.
    pub active: Option<RawActiveDisplay>,
    pub info: Option<DisplayInfo>,
    /// The buffer with a frame that was not shown yet.
    pub pending_slot: Option<usize>,
    /// The last frame that came while no display was connected.
    pub disconnected_frame: Option<Vec<u8>>,
    /// The buffer that is being committed.
    pub committing_slot: Option<usize>,
    pub closed: bool,
}

/// Where a frame goes.
#[derive(Clone, Copy, PartialEq, Eq, Structural, Debug)]
pub enum FrameTarget {
    /// Into this buffer.
    Slot(usize),
    /// It is kept until a display is connected.
    Keep,
}

impl RawDisplayState {
    /// There are enough buffers, and a buffer that waits is neither shown nor being committed.
    pub open spec fn wf(self) -> bool {
        match self.active {
            Some(a) => {
                &&& a.buffers == BUFFER_COUNT
                &&& a.current < a.buffers
                &&& self.pending_slot matches Some(p) ==> p < a.buffers && p != a.current
                    && self.committing_slot != Some(p)
                &&& self.committing_slot matches Some(c) ==> c < a.buffers && c != a.current
            },
            None => self.pending_slot is None && self.committing_slot is None,
        }
    }

    /// The slot may be written: its contents are neither on the screen nor on their way to it.
    pub open spec fn may_write(self, slot: usize) -> bool {
        self.active matches Some(a) && slot < a.buffers && slot != a.current
            && self.committing_slot != Some(slot)
    }

    /// The slot that a frame would be written to.
    pub open spec fn is_writable_slot(self, slot: usize) -> bool {
        self.active matches Some(a) && (self.pending_slot == Some(slot) || (
        self.pending_slot is None && is_first_free(
            a.buffers,
            a.current,
            self.committing_slot,
            slot,
        )))
    }

    pub fn new(active: Option<RawActiveDisplay>, info: Option<DisplayInfo>) -> (r: RawDisplayState)
        requires
            active matches Some(a) ==> a.buffers == BUFFER_COUNT && a.current < a.buffers,
        ensures
            r == (RawDisplayState {
                active,
                info,
                pending_slot: None,
                disconnected_frame: None,
                committing_slot: None,
                closed: false,
            }),
            r.wf(),
    {
        RawDisplayState {
            active,
            info,
            pending_slot: None,
            disconnected_frame: None,
            committing_slot: None,
            closed: false,
        }
    }

    /// Decides where a frame goes. Its size is looked at before anything else; a frame of the
    /// right size always finds room.
    pub fn frame_target(&self, frame_len: usize, frame_size: usize) -> (r: Result<
        FrameTarget,
        Error,
    >)
        requires
            self.wf(),
        ensures
            match r {
                Ok(FrameTarget::Slot(slot)) => {
                    &&& frame_len == frame_size
                    &&& !self.closed
                    &&& self.is_writable_slot(slot)
                    &&& self.may_write(slot)
                },
                Ok(FrameTarget::Keep) => frame_len == frame_size && !self.closed
                    && self.active is None,
                Err(e) => if frame_len != frame_size {
                    e.says(ErrorKind::InvalidInput, "invalid raw frame size"@)
                } else {
                    self.closed && e == Error::Simple(ErrorKind::BrokenPipe)
                },
            },
    {
        match check_frame_size(frame_len, frame_size) {
            Ok(()) => {},
            Err(e) => {
                return Err(e);
            },
        }
        if self.closed {
            return Err(Error::Simple(ErrorKind::BrokenPipe));
        }
        match &self.active {
            Some(active) => {
                proof {
                    lemma_some_slot_is_free(active.current, self.committing_slot);
                }
                match active.choose_writable_slot(self.pending_slot, self.committing_slot) {
                    Ok(slot) => Ok(FrameTarget::Slot(slot)),
                    Err(e) => Err(e),
                }
            },
            None => Ok(FrameTarget::Keep),
        }
    }

    pub open spec fn spec_frame_uploaded(self, slot: usize) -> RawDisplayState {
        RawDisplayState { pending_slot: Some(slot), disconnected_frame: None, ..self }
    }

    pub open spec fn spec_frame_kept(self, frame: Vec<u8>) -> RawDisplayState {
        RawDisplayState { disconnected_frame: Some(frame), ..self }
    }

    /// A frame was written to the slot; it is the newest.
    pub fn frame_uploaded(&mut self, slot: usize)
        requires
            old(self).wf(),
            old(self).may_write(slot),
        ensures
            *final(self) == (RawDisplayState {
                pending_slot: Some(slot),
                disconnected_frame: None,
                ..*old(self)
            }),
            *final(self) == old(self).spec_frame_uploaded(slot),
            final(self).wf(),
    {
        self.pending_slot = Some(slot);
        self.disconnected_frame = None;
    }

    /// Keeps a frame until a display is connected.
    pub fn keep_frame(&mut self, frame: Vec<u8>)
        requires
            old(self).wf(),
        ensures
            *final(self) == (RawDisplayState { disconnected_frame: Some(frame), ..*old(self) }),
            *final(self) == old(self).spec_frame_kept(frame),
            final(self).wf(),
    {
        self.disconnected_frame = Some(frame);
    }

    /// The frame that was kept, unless a newer one is in a buffer.
    pub open spec fn spec_kept_frame(self) -> Option<Vec<u8>> {
        if self.pending_slot is None {
            self.disconnected_frame
        } else {
            None
        }
    }

    pub open spec fn spec_kept_frame_taken(self) -> RawDisplayState {
        RawDisplayState {
            disconnected_frame: if self.pending_slot is None {
                None
            } else {
                self.disconnected_frame
            },
            ..self
        }
    }

    /// Takes the frame that was kept, unless a newer one is in a buffer.
    pub fn take_disconnected_frame(&mut self) -> (r: Option<Vec<u8>>)
        requires
            old(self).wf(),
        ensures
            r == old(self).spec_kept_frame(),
            *final(self) == old(self).spec_kept_frame_taken(),
            final(self).wf(),
    {
        if self.pending_slot.is_none() {
            self.disconnected_frame.take()
        } else {
            None
        }
    }

    /// The slot for the frame that was kept.
    pub fn kept_frame_slot(&self) -> (r: Option<usize>)
        requires
            self.wf(),
        ensures
            match r {
                Some(slot) => self.is_writable_slot(slot) && self.may_write(slot),
                None => self.active is None,
            },
    {
        match &self.active {
            Some(active) => {
                proof {
                    lemma_some_slot_is_free(active.current, self.committing_slot);
                }
                match active.choose_writable_slot(self.pending_slot, self.committing_slot) {
                    Ok(slot) => Some(slot),
                    Err(_) => None,
                }
            },
            None => None,
        }
    }

    /// The state once the frame that was kept was written to the slot, or could not be.
    pub open spec fn spec_kept_frame_done(
        self,
        slot: usize,
        frame: Vec<u8>,
        uploaded: bool,
    ) -> RawDisplayState {
        if uploaded {
            RawDisplayState { pending_slot: Some(slot), ..self }
        } else {
            RawDisplayState { disconnected_frame: Some(frame), ..self }
        }
    }

    /// The frame that was kept is in the slot now, or it is kept again.
    pub fn kept_frame_done(&mut self, slot: usize, frame: Vec<u8>, uploaded: bool)
        requires
            old(self).wf(),
            old(self).may_write(slot),
        ensures
            *final(self) == old(self).spec_kept_frame_done(slot, frame, uploaded),
            final(self).wf(),
    {
        if uploaded {
            self.pending_slot = Some(slot);
        } else {
            self.disconnected_frame = Some(frame);
        }
    }

    pub open spec fn spec_slot_to_commit(self) -> Option<usize> {
        if self.committing_slot is None {
            self.pending_slot
        } else {
            None
        }
    }

    pub open spec fn spec_commit_begun(self) -> RawDisplayState {
        match self.spec_slot_to_commit() {
            Some(slot) => RawDisplayState {
                pending_slot: None,
                committing_slot: Some(slot),
                ..self
            },
            None => self,
        }
    }

    /// Begins to commit the buffer that waits, unless another one is being committed.
    pub fn begin_commit(&mut self) -> (r: Option<usize>)
        requires
            old(self).wf(),
        ensures
            r == old(self).spec_slot_to_commit(),
            *final(self) == old(self).spec_commit_begun(),
            final(self).wf(),
    {
        if self.committing_slot.is_some() {
            return None;
        }
        match self.pending_slot {
            Some(slot) => {
                self.pending_slot = None;
                self.committing_slot = Some(slot);
                Some(slot)
            },
            None => None,
        }
    }

    pub open spec fn spec_disconnected(self) -> RawDisplayState {
        RawDisplayState {
            active: None,
            info: None,
            pending_slot: None,
            committing_slot: None,
            ..self
        }
    }

    /// The display is gone, and the frames in its buffers with it. A frame that was kept stays.
    pub fn disconnect(&mut self)
        ensures
            *final(self) == old(self).spec_disconnected(),
            final(self).wf(),
    {
        self.active = None;
        self.info = None;
        self.pending_slot = None;
        self.committing_slot = None;
    }

    /// The state once the buffer that was being committed is shown, or could not be.
    pub open spec fn spec_commit_done(self, committed: bool) -> RawDisplayState {
        if committed {
            RawDisplayState {
                active: Some(
                    RawActiveDisplay { current: self.committing_slot->0, ..self.active->0 },
                ),
                committing_slot: None,
                ..self
            }
        } else {
            self.spec_disconnected()
        }
    }

    /// The buffer that was being committed is shown now, or the display is gone.
    pub fn commit_done(&mut self, committed: bool)
        requires
            old(self).wf(),
            old(self).committing_slot is Some,
        ensures
            *final(self) == old(self).spec_commit_done(committed),
            final(self).wf(),
    {
        if !committed {
            self.disconnect();
            return ;
        }
        if let Some(active) = self.active {
            if let Some(slot) = self.committing_slot {
                self.active = Some(RawActiveDisplay { current: slot, ..active });
            }
        }
        self.committing_slot = None;
    }

    pub open spec fn spec_connected(self, active: RawActiveDisplay, info: DisplayInfo) -> RawDisplayState {
        RawDisplayState {
            active: Some(active),
            info: Some(info),
            pending_slot: None,
            committing_slot: None,
            ..self
        }
    }

    /// A display was connected.
    pub fn connect(&mut self, active: RawActiveDisplay, info: DisplayInfo)
        requires
            active.buffers == BUFFER_COUNT,
            active.current < active.buffers,
        ensures
            *final(self) == old(self).spec_connected(active, info),
            final(self).wf(),
    {
        self.active = Some(active);
        self.info = Some(info);
        self.pending_slot = None;
        self.committing_slot = None;
    }

    pub open spec fn spec_is_ready(self) -> bool {
        self.closed || self.pending_slot is Some || self.disconnected_frame is Some
    }

    /// Whether there is something to do without waiting for it.
    pub fn is_ready(&self) -> (r: bool)
        ensures
            r == self.spec_is_ready(),
            r == (self.closed || self.pending_slot is Some || self.disconnected_frame is Some),
    {
        self.closed || self.pending_slot.is_some() || self.disconnected_frame.is_some()
    }

    pub fn close(&mut self)
        requires
            old(self).wf(),
        ensures
            *final(self) == (RawDisplayState { closed: true, ..*old(self) }),
            final(self).wf(),
    {
        self.closed = true;
    }

    pub fn is_closed(&self) -> (r: bool)
        ensures
            r == self.closed,
    {
        self.closed
    }

    /// Whether a display is connected.
    pub fn is_active(&self) -> (r: bool)
        ensures
            r == (self.active is Some),
    {
        self.active.is_some()
    }
}

impl RawDisplayState {
    /// What callers can do to the state between two steps of the thread: bring newer frames, and
    /// close the display. They never touch what is on the screen or on its way to it.
    pub open spec fn callers_lead_to(self, after: RawDisplayState) -> bool {
        &&& after.wf()
        &&& after.active == self.active
        &&& after.info == self.info
        &&& after.committing_slot == self.committing_slot
        &&& self.closed ==> after.closed
        &&& {
            ||| after.pending_slot == self.pending_slot && after.disconnected_frame
                == self.disconnected_frame
            ||| self.active is None && after.pending_slot == self.pending_slot
                && after.disconnected_frame is Some
            ||| self.active is Some && after.pending_slot is Some && after.disconnected_frame is None
        }
    }
}

/// All that callers do is among what they can do, and so is one thing after the other.
pub proof fn callers_keep_their_bounds(
    state: RawDisplayState,
    middle: RawDisplayState,
    after: RawDisplayState,
    slot: usize,
    frame: Vec<u8>,
)
    requires
        state.wf(),
    ensures
        state.callers_lead_to(state),
        state.may_write(slot) ==> state.callers_lead_to(
            (RawDisplayState { pending_slot: Some(slot), disconnected_frame: None, ..state }),
        ),
        state.active is None ==> state.callers_lead_to(
            (RawDisplayState { disconnected_frame: Some(frame), ..state }),
        ),
        state.callers_lead_to((RawDisplayState { closed: true, ..state })),
        state.callers_lead_to(middle) && middle.callers_lead_to(after) ==> state.callers_lead_to(
            after,
        ),
{
}

proof fn lemma_some_slot_is_free(current: usize, committing_slot: Option<usize>)
    ensures
        exists|slot: usize| is_first_free(BUFFER_COUNT, current, committing_slot, slot),
{
    let slot: usize = if !is_taken(current, committing_slot, 0) {
        0
    } else if !is_taken(current, committing_slot, 1) {
        1
    } else {
        2
    };
    assert(is_first_free(BUFFER_COUNT, current, committing_slot, slot));
}

/// With all its buffers, a display always has one to write to, whatever is shown and whatever
/// is being committed; and it is never one of those.
pub proof fn writable_slot_exists(state: RawDisplayState)
    requires
        state.wf(),
        state.active is Some,
    ensures
        exists|slot: usize| #[trigger] state.is_writable_slot(slot) && state.may_write(slot),
{
    match state.pending_slot {
        Some(p) => {
            assert(state.is_writable_slot(p));
        },
        None => {
            let a = state.active->0;
            lemma_some_slot_is_free(a.current, state.committing_slot);
            let slot = choose|slot: usize|
                is_first_free(BUFFER_COUNT, a.current, state.committing_slot, slot);
            assert(state.is_writable_slot(slot));
        },
    }
}

/// The slot is determined by the state.
pub proof fn writable_slot_is_unique(state: RawDisplayState, a: usize, b: usize)
    requires
        state.is_writable_slot(a),
        state.is_writable_slot(b),
    ensures
        a == b,
{
    if state.pending_slot is None {
        let current = state.active->0.current;
        if a < b {
            assert(is_taken(current, state.committing_slot, a));
        } else if b < a {
            assert(is_taken(current, state.committing_slot, b));
        }
    }
}

/// A frame is written to the buffer that waits, in place of the older frame there, or else to the
/// first of the three that is neither shown nor being committed.
pub proof fn writable_slot_is_the_first_free_one(state: RawDisplayState, slot: usize, other: usize)
    requires
        state.wf(),
        state.is_writable_slot(slot),
    ensures
        slot < 3,
        state.active matches Some(a) && slot != a.current,
        state.committing_slot != Some(slot),
        state.pending_slot is Some ==> state.pending_slot == Some(slot),
        state.pending_slot is None && other < slot ==> other == state.active->0.current
            || state.committing_slot == Some(other),
{
    if state.pending_slot is None && other < slot {
        assert(is_taken(state.active->0.current, state.committing_slot, other));
    }
}

/// A buffer may be written while a display is connected that neither shows nor is about to show
/// it.
pub proof fn shown_buffers_are_not_written(state: RawDisplayState, slot: usize)
    ensures
        state.may_write(slot) <==> state.active is Some && slot < state.active->0.buffers && slot
            != state.active->0.current && state.committing_slot != Some(slot),
{
}

/// The frame that was kept is handed out once, and only while no newer frame is in a buffer.
/// Nothing else changes.
pub proof fn kept_frame_is_taken_once(state: RawDisplayState)
    ensures
        ({
            let after = state.spec_kept_frame_taken();
            &&& state.pending_slot is None ==> state.spec_kept_frame() == state.disconnected_frame
                && after.disconnected_frame is None
            &&& state.pending_slot is Some ==> state.spec_kept_frame() is None
                && after.disconnected_frame == state.disconnected_frame
            &&& after.active == state.active && after.info == state.info
            &&& after.pending_slot == state.pending_slot && after.committing_slot
                == state.committing_slot && after.closed == state.closed
        }),
{
}

/// The frame that was kept waits in its buffer once it was written, and is kept again where it
/// could not be. Nothing else changes.
pub proof fn kept_frame_is_placed_or_kept(
    state: RawDisplayState,
    slot: usize,
    frame: Vec<u8>,
    uploaded: bool,
)
    ensures
        ({
            let after = state.spec_kept_frame_done(slot, frame, uploaded);
            &&& uploaded ==> after.pending_slot == Some(slot) && after.disconnected_frame
                == state.disconnected_frame
            &&& !uploaded ==> after.pending_slot == state.pending_slot && after.disconnected_frame
                == Some(frame)
            &&& after.active == state.active && after.info == state.info
            &&& after.committing_slot == state.committing_slot && after.closed == state.closed
        }),
{
}

/// The buffer that waits is committed next, one at a time: it stops waiting when its commit
/// begins, and none begins while another one is under way.
pub proof fn commits_begin_one_at_a_time(state: RawDisplayState)
    ensures
        ({
            let after = state.spec_commit_begun();
            let slot = state.spec_slot_to_commit();
            &&& slot is Some <==> state.committing_slot is None && state.pending_slot is Some
            &&& slot is Some ==> slot == state.pending_slot && after.committing_slot == slot
                && after.pending_slot is None
            &&& slot is None ==> after.committing_slot == state.committing_slot
                && after.pending_slot == state.pending_slot
            &&& after.active == state.active && after.info == state.info
            &&& after.disconnected_frame == state.disconnected_frame && after.closed
                == state.closed
        }),
{
}

/// A commit that succeeded shows the buffer it was for, and leaves the one that waits and all
/// else alone. One that failed costs the display, and so what its buffers held, but not the frame
/// that was kept.
pub proof fn commits_show_their_buffer(state: RawDisplayState)
    requires
        state.active is Some,
        state.committing_slot is Some,
    ensures
        ({
            let shown = state.spec_commit_done(true);
            let lost = state.spec_commit_done(false);
            let a = state.active->0;
            &&& shown.active matches Some(b) && b.current == state.committing_slot->0 && b.buffers
                == a.buffers && b.width == a.width && b.height == a.height && b.format == a.format
                && b.fb_format == a.fb_format
            &&& shown.committing_slot is None
            &&& shown.pending_slot == state.pending_slot && shown.info == state.info
            &&& shown.disconnected_frame == state.disconnected_frame && shown.closed
                == state.closed
            &&& lost.active is None && lost.info is None
            &&& lost.pending_slot is None && lost.committing_slot is None
            &&& lost.disconnected_frame == state.disconnected_frame && lost.closed == state.closed
        }),
{
}

/// A display that goes away takes its buffers with it; one that comes starts with none waiting.
/// The frame that was kept stays either way.
pub proof fn kept_frame_outlives_displays(
    state: RawDisplayState,
    active: RawActiveDisplay,
    info: DisplayInfo,
)
    ensures
        ({
            let gone = state.spec_disconnected();
            let back = state.spec_connected(active, info);
            &&& gone.active is None && gone.info is None
            &&& gone.pending_slot is None && gone.committing_slot is None
            &&& gone.disconnected_frame == state.disconnected_frame && gone.closed == state.closed
            &&& back.active == Some(active) && back.info == Some(info)
            &&& back.pending_slot is None && back.committing_slot is None
            &&& back.disconnected_frame == state.disconnected_frame && back.closed == state.closed
        }),
{
}

/// There are three buffers, and frames have the size that their format gives them at the width
/// and height that were asked for.
pub proof fn frames_have_the_size_asked_for(config: RawDisplayConfig)
    ensures
        BUFFER_COUNT == 3,
        config.spec_frame_size() == config.format.spec_frame_size(
            config.frame_width as int,
            config.frame_height as int,
        ),
{
}

/// A frame that callers bring waits in its buffer, where it outdates the one that was kept, or is
/// kept itself, in place of an older one. Nothing else changes, and the thread has something to
/// do.
pub proof fn new_frames_outdate_kept_ones(state: RawDisplayState, slot: usize, frame: Vec<u8>)
    ensures
        ({
            let up = state.spec_frame_uploaded(slot);
            let kept = state.spec_frame_kept(frame);
            &&& up.pending_slot == Some(slot) && up.disconnected_frame is None
            &&& up.active == state.active && up.info == state.info
            &&& up.committing_slot == state.committing_slot && up.closed == state.closed
            &&& kept.disconnected_frame == Some(frame) && kept.pending_slot == state.pending_slot
            &&& kept.active == state.active && kept.info == state.info
            &&& kept.committing_slot == state.committing_slot && kept.closed == state.closed
            &&& up.spec_is_ready() && kept.spec_is_ready()
        }),
        state.spec_is_ready() <==> state.closed || state.pending_slot is Some
            || state.disconnected_frame is Some,
{
}

} // verus!
