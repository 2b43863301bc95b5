//! A display that cycles through its buffers, one frame at a time.
use crate::conversion::{self, conversion_fits, frame_written, spec_conversion};
use crate::copy::{holds_frame, holds_interleaved};
use crate::error::{err, Error, ErrorKind};
use crate::mode::ModeInfo;
use crate::pick::none_fits;
use crate::pixel_format::PixelFormat;
use crate::property::{modeset_order, DisplayProps, ObjectProps};
use crate::topology::{
    find_connector, find_plane_for_crtc, connector_fits, plane_compatible, ConnectorInfo, PlaneInfo,
};
use vstd::prelude::*;

verus! {

/// Picks the first connected connector that has at least one mode.
pub fn pick_connected_connector(conns: &Vec<ConnectorInfo>) -> (r: Result<usize, Error>)
    ensures
        match r {
            Ok(i) => {
                &&& i < conns@.len()
                &&& conns@[i as int].usable()
                &&& forall|j: int| 0 <= j < i ==> !(#[trigger] conns@[j]).usable()
            },
            Err(e) => {
                &&& forall|j: int| 0 <= j < conns@.len() ==> !(#[trigger] conns@[j]).usable()
                &&& e.says(ErrorKind::Other, "No connected connector"@)
            },
        },
{
    let ghost fits = connector_fits(conns@);
    match find_connector(conns, false) {
        Some(i) => {
            assert forall|j: int| 0 <= j < i implies !(#[trigger] conns@[j]).usable() by {
                assert(fits(i as int));
                assert(!fits(j));
            }
            Ok(i)
        },
        None => {
            assert(none_fits(conns@.len() as int, fits));
            assert forall|j: int| 0 <= j < conns@.len() implies !(#[trigger] conns@[j]).usable() by {
                assert(!fits(j));
            }
            Err(err("No connected connector"))
        },
    }
}

/// The first encoder of the connector.
pub fn pick_encoder(conn: &ConnectorInfo) -> (r: Result<u32, Error>)
    ensures
        match r {
            Ok(handle) => conn.encoders@.len() > 0 && handle == conn.encoders@[0],
            Err(e) => conn.encoders@.len() == 0 && e.says(
                ErrorKind::Other,
                "connector has no encoders"@,
            ),
        },
{
    if conn.encoders.len() > 0 {
        Ok(conn.encoders[0])
    } else {
        Err(err("connector has no encoders"))
    }
}

/// The CRTC of the encoder.
pub fn pick_crtc(crtc: Option<u32>) -> (r: Result<u32, Error>)
    ensures
        match r {
            Ok(handle) => crtc == Some(handle),
            Err(e) => crtc is None && e.says(ErrorKind::Other, "encoder has no crtc"@),
        },
{
    match crtc {
        Some(handle) => Ok(handle),
        None => Err(err("encoder has no crtc")),
    }
}

/// Chooses the first available mode.
pub fn pick_mode(modes: &Vec<ModeInfo>) -> (r: Result<ModeInfo, Error>)
    ensures
        match r {
            Ok(mode) => modes@.len() > 0 && mode == modes@[0],
            Err(e) => modes@.len() == 0 && e.says(ErrorKind::Other, "connector has no modes"@),
        },
{
    if modes.len() > 0 {
        Ok(modes[0])
    } else {
        Err(err("connector has no modes"))
    }
}

/// Finds the first plane compatible with the target CRTC.
pub fn pick_plane(planes: &Vec<PlaneInfo>, crtc: u32) -> (r: Result<u32, Error>)
    ensures
        match r {
            Ok(handle) => exists|i: int|
                0 <= i < planes@.len() && (#[trigger] planes@[i]).shows_on(crtc)
                    && planes@[i].handle == handle && forall|j: int|
                    0 <= j < i ==> !(#[trigger] planes@[j]).shows_on(crtc),
            Err(e) => {
                &&& forall|j: int| 0 <= j < planes@.len() ==> !(#[trigger] planes@[j]).shows_on(crtc)
                &&& e.says(ErrorKind::Other, "No compatible plane found"@)
            },
        },
{
    match find_plane_for_crtc(planes, crtc, None) {
        Some(i) => {
            assert(plane_compatible(planes@[i as int], crtc, None));
            assert forall|j: int| 0 <= j < i implies !(#[trigger] planes@[j]).shows_on(crtc) by {
                assert(!plane_compatible(planes@[j], crtc, None));
            }
            Ok(planes[i].handle)
        },
        None => {
            assert forall|j: int| 0 <= j < planes@.len() implies !(#[trigger] planes@[j]).shows_on(
                crtc,
            ) by {
                assert(!plane_compatible(planes@[j], crtc, None));
            }
            Err(err("No compatible plane found"))
        },
    }
}

/// Finds the properties that a modeset assigns.
pub fn find_props(objects: &ObjectProps) -> (r: Result<DisplayProps, Error>)
    ensures
        match r {
            Ok(props) => objects.resolves(props),
            Err(e) => {
                &&& exists|k: int| objects.first_missing(modeset_order(), k)
                &&& e.says(ErrorKind::Other, "property not found"@)
            },
        },
{
    match objects.find_modeset_props() {
        Ok(props) => Ok(props),
        Err(_) => Err(err("property not found")),
    }
}

/// The display, as far as its buffers are concerned.
#[derive(Clone, Copy, PartialEq, Eq, Structural, Debug)]
pub struct SinkDisplay {
    /// Number of buffers.
    pub buffers: usize,
    /// The buffer that is shown.
    pub cur: usize,
    pub w: u32,
    pub h: u32,
    pub fmt: PixelFormat,
    pub fb_fmt: PixelFormat,
}

/// Number of buffers that the display cycles through.
pub const SINK_BUFFERS: usize = 3;

impl SinkDisplay {
    pub open spec fn wf(self) -> bool {
        0 <= self.cur < self.buffers && self.fb_fmt == self.fmt.spec_fb_format()
    }

    /// The buffer after `slot`.
    pub open spec fn slot_after(self, slot: int) -> int {
        (slot + 1) % self.buffers as int
    }

    /// A display that shows the first of its buffers. The buffers are in the format that the
    /// frames are scanned out in.
    pub fn new(w: u32, h: u32, fmt: PixelFormat) -> (r: SinkDisplay)
        ensures
            r == (SinkDisplay {
                buffers: SINK_BUFFERS,
                cur: 0,
                w,
                h,
                fmt,
                fb_fmt: fmt.spec_fb_format(),
            }),
            r.wf(),
    {
        SinkDisplay { buffers: SINK_BUFFERS, cur: 0, w, h, fmt, fb_fmt: fmt.fb_format() }
    }

    /// Takes a frame of the right size only, and says which buffer it goes to.
    pub fn next_slot(&self, frame_len: usize) -> (r: Result<usize, Error>)
        requires
            self.wf(),
            self.fmt.frame_size_product(self.w as int, self.h as int) <= usize::MAX,
        ensures
            match r {
                Ok(slot) => {
                    &&& frame_len == self.fmt.spec_frame_size(self.w as int, self.h as int)
                    &&& slot == self.slot_after(self.cur as int)
                    &&& slot < self.buffers
                },
                Err(e) => {
                    &&& frame_len != self.fmt.spec_frame_size(self.w as int, self.h as int)
                    &&& e.says(ErrorKind::Other, "invalid frame size"@)
                },
            },
    {
        let frame_size: usize = self.fmt.frame_size(self.w, self.h);
        if frame_len != frame_size {
            return Err(err("invalid frame size"));
        }
        Ok((self.cur + 1) % self.buffers)
    }

    /// Writes a frame into the mapped buffer. Every frame can be written.
    pub fn write_frame(&self, frame: &[u8], mapping: &mut [u8], pitch: usize)
        requires
            self.wf(),
            spec_conversion(self.fmt, self.fb_fmt) matches Some(how) && conversion_fits(
                frame@.len() as int,
                old(mapping)@.len() as int,
                pitch as int,
                self.w as int,
                self.h as int,
                self.fmt,
                how,
            ),
        ensures
            spec_conversion(self.fmt, self.fb_fmt) matches Some(how) && final(mapping)@
                == frame_written(
                old(mapping)@,
                frame@,
                pitch as int,
                self.w as int,
                self.h as int,
                self.fmt,
                how,
            ),
            self.fmt == self.fb_fmt && self.w * self.fmt.pixel_bytes() <= pitch ==> holds_frame(
                final(mapping)@,
                frame@,
                pitch as int,
                self.w as int,
                self.h as int,
                self.fmt,
            ),
            self.fmt != self.fb_fmt && self.w <= pitch ==> holds_interleaved(
                final(mapping)@,
                frame@,
                pitch as int,
                self.w as int,
                self.h as int,
            ),
    {
        if let Some(how) = conversion::conversion(self.fmt, self.fb_fmt) {
            conversion::write_frame(frame, mapping, pitch, self.w, self.h, self.fmt, how);
        }
    }

    /// The buffer was committed.
    pub fn shown(&mut self, slot: usize)
        requires
            old(self).wf(),
            slot < old(self).buffers,
        ensures
            *final(self) == (SinkDisplay { cur: slot, ..*old(self) }),
            final(self).wf(),
    {
        self.cur = slot;
    }
}

/// A frame never goes to the buffer that is shown, nor to the one that was shown before it, and
/// the display comes back to the same buffer after as many frames as there are buffers.
pub proof fn buffers_take_turns(d: SinkDisplay)
    requires
        d.wf(),
        d.buffers == SINK_BUFFERS,
    ensures
        ({
            let cur = d.cur as int;
            let next = d.slot_after(cur);
            let third = d.slot_after(next);
            &&& next != cur
            &&& third != next && third != cur
            &&& d.slot_after(third) == cur
        }),
{
}

/// The buffers are used in turn: after each the next one, and after the last the first.
pub proof fn next_buffer_follows(d: SinkDisplay)
    requires
        d.wf(),
    ensures
        d.cur + 1 < d.buffers ==> d.slot_after(d.cur as int) == d.cur + 1,
        d.cur + 1 == d.buffers ==> d.slot_after(d.cur as int) == 0,
        SINK_BUFFERS == 3,
        d.fb_fmt == d.fmt || d.fmt == PixelFormat::I420 && d.fb_fmt == PixelFormat::NV12,
{
    let n = d.buffers as int;
    if d.cur + 1 < n {
        assert((d.cur + 1) % n == d.cur + 1) by (nonlinear_arith)
            requires
                0 <= d.cur + 1 < n,
        ;
    } else {
        assert(n % n == 0) by (nonlinear_arith)
            requires
                n > 0,
        ;
    }
}

} // verus!
