//! A display that shows one imported frame after the other and keeps none but the last.
use crate::error::{Error, ErrorKind};
use crate::mode::ModeInfo;
use crate::modeset::{self, Assignment, CommitMode, Pipeline};
use crate::pick::none_fits;
use crate::property::{
    display_order, found_props_have_their_names, is_handle_of, DisplayProps, ObjectProps,
};
use crate::topology::{
    connector_fits, find_connector, find_plane_for_crtc, plane_compatible, ConnectorInfo, PlaneInfo,
};
use vstd::prelude::*;

verus! {

/// A frame in a single memory object.
#[derive(Debug)]
pub struct PrimeFrame {
    pub fd: i32,
    pub width: u32,
    pub height: u32,
    pub pitches: Vec<u32>,
    pub offsets: Vec<u32>,
}

/// The first four values, with zeros for those that are missing.
pub open spec fn four_of(values: Seq<u32>) -> Seq<u32> {
    Seq::new(
        4,
        |i: int|
            if i < values.len() {
                values[i]
            } else {
                0
            },
    )
}

fn first_four(values: &Vec<u32>) -> (r: [u32; 4])
    ensures
        r@ == four_of(values@),
{
    let mut table: [u32; 4] = [0, 0, 0, 0];
    let mut i: usize = 0;
    while i < 4 && i < values.len()
        invariant
            i <= 4,
            i <= values.len(),
            forall|j: int|
                0 <= j < 4 ==> #[trigger] table@[j] == (if j < i {
                    values@[j]
                } else {
                    0
                }),
        decreases 4 - i,
    {
        table[i] = values[i];
        i += 1;
    }
    assert(table@ =~= four_of(values@));
    table
}

/// An imported frame as the card takes it.
#[derive(Clone, Copy, Debug)]
pub struct ImportedBuffer {
    pub w: u32,
    pub h: u32,
    /// Four-character code.
    pub fmt: u32,
    pub pitches: [u32; 4],
    pub offsets: [u32; 4],
    pub handles: [Option<u32>; 4],
}

/// Describes a frame whose memory object was imported as `handle`.
pub fn imported_buffer(frame: &PrimeFrame, fmt: u32, handle: u32) -> (r: ImportedBuffer)
    ensures
        r.w == frame.width,
        r.h == frame.height,
        r.fmt == fmt,
        r.pitches@ == four_of(frame.pitches@),
        r.offsets@ == four_of(frame.offsets@),
        r.handles@ == seq![Some(handle), None, None, None],
{
    let handles = [Some(handle), None, None, None];
    assert(handles@ =~= seq![Some(handle), None, None, None]);
    ImportedBuffer {
        w: frame.width,
        h: frame.height,
        fmt,
        pitches: first_four(&frame.pitches),
        offsets: first_four(&frame.offsets),
        handles,
    }
}

/// What the display is driven through.
#[derive(Clone, Copy, PartialEq, Eq, Structural, Debug)]
pub struct Route {
    /// Position among the connectors.
    pub connector: usize,
    pub encoder: u32,
}

/// Picks the first connected connector with a mode, and its first encoder.
pub fn pick_route(conns: &Vec<ConnectorInfo>) -> (r: Result<Route, Error>)
    ensures
        match r {
            Ok(route) => {
                let i = route.connector as int;
                &&& i < conns@.len()
                &&& conns@[i].usable()
                &&& forall|j: int| 0 <= j < i ==> !(#[trigger] conns@[j]).usable()
                &&& conns@[i].encoders@.len() > 0
                &&& route.encoder == conns@[i].encoders@[0]
            },
            Err(e) => {
                &&& e == Error::Simple(ErrorKind::NotFound)
                &&& (forall|j: int| 0 <= j < conns@.len() ==> !(#[trigger] conns@[j]).usable()) || (
                exists|i: int|
                    0 <= i < conns@.len() && (#[trigger] conns@[i]).usable()
                        && conns@[i].encoders@.len() == 0 && forall|j: int|
                        0 <= j < i ==> !(#[trigger] conns@[j]).usable())
            },
        },
{
    let ghost fits = connector_fits(conns@);
    match find_connector(conns, false) {
        Some(i) => {
            assert forall|j: int| 0 <= j < i implies !(#[trigger] conns@[j]).usable() by {
                assert(fits(i as int));
                assert(!fits(j));
            }
            assert(conns@[i as int].usable());
            if conns[i].encoders.len() == 0 {
                return Err(Error::Simple(ErrorKind::NotFound));
            }
            Ok(Route { connector: i, encoder: conns[i].encoders[0] })
        },
        None => {
            assert(none_fits(conns@.len() as int, fits));
            assert forall|j: int| 0 <= j < conns@.len() implies !(#[trigger] conns@[j]).usable() by {
                assert(!fits(j));
            }
            Err(Error::Simple(ErrorKind::NotFound))
        },
    }
}

/// The CRTC of the encoder.
pub fn pick_crtc(crtc: Option<u32>) -> (r: Result<u32, Error>)
    ensures
        match r {
            Ok(handle) => crtc == Some(handle),
            Err(e) => crtc is None && e == Error::Simple(ErrorKind::NotFound),
        },
{
    match crtc {
        Some(handle) => Ok(handle),
        None => Err(Error::Simple(ErrorKind::NotFound)),
    }
}

/// The first mode.
pub fn pick_mode(modes: &Vec<ModeInfo>) -> (r: Result<usize, Error>)
    ensures
        match r {
            Ok(i) => modes@.len() > 0 && i == 0,
            Err(e) => modes@.len() == 0 && e == Error::Simple(ErrorKind::NotFound),
        },
{
    if modes.len() > 0 {
        Ok(0)
    } else {
        Err(Error::Simple(ErrorKind::NotFound))
    }
}

/// The first plane that shows the format on the CRTC.
pub fn pick_plane(planes: &Vec<PlaneInfo>, crtc: u32, fourcc: u32) -> (r: Result<u32, Error>)
    ensures
        match r {
            Ok(handle) => exists|i: int|
                0 <= i < planes@.len() && #[trigger] plane_compatible(
                    planes@[i],
                    crtc,
                    Some(fourcc),
                ) && planes@[i].handle == handle && forall|j: int|
                    0 <= j < i ==> !#[trigger] plane_compatible(planes@[j], crtc, Some(fourcc)),
            Err(e) => {
                &&& forall|j: int|
                    0 <= j < planes@.len() ==> !#[trigger] plane_compatible(
                        planes@[j],
                        crtc,
                        Some(fourcc),
                    )
                &&& e == Error::Simple(ErrorKind::NotFound)
            },
        },
{
    match find_plane_for_crtc(planes, crtc, Some(fourcc)) {
        Some(i) => {
            assert(plane_compatible(planes@[i as int], crtc, Some(fourcc)));
            Ok(planes[i].handle)
        },
        None => Err(Error::Simple(ErrorKind::NotFound)),
    }
}

/// Finds the properties that showing frames assigns.
pub fn find_props(objects: &ObjectProps) -> (r: Result<DisplayProps, Error>)
    ensures
        match r {
            Ok(props) => {
                &&& props.zpos is None
                &&& exists|zpos: Option<u32>|
                    objects.resolves(#[trigger] with_zpos(props, zpos))
            },
            Err(e) => {
                &&& exists|k: int| objects.first_missing(display_order(), k)
                &&& e == Error::Simple(ErrorKind::NotFound)
            },
        },
{
    match objects.find_display_props() {
        Ok(props) => {
            let plain = DisplayProps { zpos: None, ..props };
            assert(with_zpos(plain, props.zpos) == props);
            Ok(plain)
        },
        Err(_) => Err(Error::Simple(ErrorKind::NotFound)),
    }
}

/// The same properties with another `ZPOS`.
pub open spec fn with_zpos(props: DisplayProps, zpos: Option<u32>) -> DisplayProps {
    DisplayProps { zpos, ..props }
}

/// A framebuffer on the card and the handle of its memory object.
#[derive(Clone, Copy, PartialEq, Eq, Structural, Debug)]
pub struct ShownFrame {
    pub fb: u32,
    pub handle: u32,
}

/// What is on the card.
#[derive(Clone, Copy, PartialEq, Eq, Structural, Debug)]
pub struct PrimeDisplay {
    pub setup: bool,
    pub last: Option<ShownFrame>,
}

impl PrimeDisplay {
    pub fn new() -> (r: PrimeDisplay)
        ensures
            r == (PrimeDisplay { setup: false, last: None }),
    {
        PrimeDisplay { setup: false, last: None }
    }

    /// How the next frame is committed.
    pub open spec fn spec_commit_mode(self) -> CommitMode {
        if self.last is None {
            CommitMode::AllowModeset
        } else {
            CommitMode::PageFlipEvent
        }
    }

    /// The request that shows `fb`, and how it is committed. The first request also sets the
    /// display up; it is not set up again, whether or not the commit succeeds.
    pub fn prepare(&mut self, p: &Pipeline, fb: u32, mode_blob: u64, w: u32, h: u32) -> (r: (
        Vec<Assignment>,
        CommitMode,
    ))
        ensures
            r.0@ == modeset::spec_import_request(*p, old(self).setup, fb, mode_blob, w, h),
            r.1 == (if old(self).last is None {
                CommitMode::AllowModeset
            } else {
                CommitMode::PageFlipEvent
            }),
            !old(self).setup ==> modeset::covers_display(r.0@, *p, w, h),
            modeset::shows_framebuffer(r.0@, *p, fb),
            r.1 == old(self).spec_commit_mode(),
            *final(self) == (PrimeDisplay { setup: true, ..*old(self) }),
    {
        let request = modeset::import_request(p, self.setup, fb, mode_blob, w, h);
        self.setup = true;
        let mode = match self.last {
            None => CommitMode::AllowModeset,
            Some(_) => CommitMode::PageFlipEvent,
        };
        (request, mode)
    }

    /// The frame that is taken off the card when another one was committed, and what follows.
    pub open spec fn spec_committed(self, shown: ShownFrame) -> (Option<ShownFrame>, PrimeDisplay) {
        (self.last, PrimeDisplay { last: Some(shown), ..self })
    }

    /// The frame that is taken off the card when the display goes away, and what follows.
    pub open spec fn spec_shut_down(self) -> (Option<ShownFrame>, PrimeDisplay) {
        (self.last, PrimeDisplay { last: None, ..self })
    }

    /// A frame was committed. Returns the frame before it, which is to be taken off the card.
    pub fn committed(&mut self, shown: ShownFrame) -> (r: Option<ShownFrame>)
        ensures
            (r, *final(self)) == old(self).spec_committed(shown),
            r == old(self).last,
            *final(self) == (PrimeDisplay { last: Some(shown), ..*old(self) }),
    {
        let before = self.last;
        self.last = Some(shown);
        before
    }

    /// The display goes away. Returns the frame that is to be taken off the card.
    pub fn shut_down(&mut self) -> (r: Option<ShownFrame>)
        ensures
            (r, *final(self)) == old(self).spec_shut_down(),
            r == old(self).last,
            *final(self) == (PrimeDisplay { last: None, ..*old(self) }),
    {
        self.last.take()
    }
}

/// The frame that is to be shown next. Of those that came while another one was being shown,
/// only the newest is.
pub struct Backlog {
    pub newest: PrimeFrame,
}

impl Backlog {
    /// A newer frame takes the place of the one that waited. Returns the descriptor to close:
    /// that of the newer frame.
    pub fn push(&mut self, frame: PrimeFrame) -> (r: i32)
        ensures
            final(self).newest == frame,
            r == frame.fd,
    {
        let fd: i32 = frame.fd;
        self.newest = frame;
        fd
    }
}

/// A table of four holds the values in their order, and zeros behind them.
pub proof fn tables_hold_four_values(values: Seq<u32>, i: int)
    requires
        0 <= i < 4,
    ensures
        four_of(values).len() == 4,
        i < values.len() ==> four_of(values)[i] == values[i],
        i >= values.len() ==> four_of(values)[i] == 0,
{
}

/// Only the first frame may light the display up; every later one reports when it is shown.
pub proof fn later_frames_report_when_shown(display: PrimeDisplay)
    ensures
        display.spec_commit_mode() is AllowModeset <==> display.last is None,
        display.spec_commit_mode() is PageFlipEvent <==> display.last is Some,
{
}

/// Setting the stacking order aside changes no other handle: each belongs to the property of its
/// name on its object.
pub proof fn plain_props_have_their_names(
    objects: ObjectProps,
    props: DisplayProps,
    zpos: Option<u32>,
)
    requires
        objects.resolves(with_zpos(props, zpos)),
    ensures
        is_handle_of(objects.connector@, "CRTC_ID"@, props.conn_crtc),
        is_handle_of(objects.crtc@, "MODE_ID"@, props.mode),
        is_handle_of(objects.crtc@, "ACTIVE"@, props.active),
        is_handle_of(objects.plane@, "CRTC_ID"@, props.crtc),
        is_handle_of(objects.plane@, "FB_ID"@, props.fb),
        is_handle_of(objects.plane@, "SRC_X"@, props.src_x),
        is_handle_of(objects.plane@, "SRC_Y"@, props.src_y),
        is_handle_of(objects.plane@, "SRC_W"@, props.src_w),
        is_handle_of(objects.plane@, "SRC_H"@, props.src_h),
        is_handle_of(objects.plane@, "CRTC_X"@, props.crtc_x),
        is_handle_of(objects.plane@, "CRTC_Y"@, props.crtc_y),
        is_handle_of(objects.plane@, "CRTC_W"@, props.crtc_w),
        is_handle_of(objects.plane@, "CRTC_H"@, props.crtc_h),
{
    found_props_have_their_names(objects, with_zpos(props, zpos));
}

/// A frame stays on the card until the next one was committed, or until the display goes away, and
/// is taken off once: then, and not again.
pub proof fn frames_are_taken_off_once(display: PrimeDisplay, shown: ShownFrame, next: ShownFrame)
    ensures
        ({
            let after = display.spec_committed(shown).1;
            &&& after.last == Some(shown) && after.setup == display.setup
            &&& after.spec_committed(next).0 == Some(shown)
            &&& after.spec_committed(next).1.last == Some(next)
            &&& after.spec_shut_down().0 == Some(shown)
            &&& after.spec_shut_down().1.last is None
            &&& after.spec_shut_down().1.spec_shut_down().0 is None
        }),
{
}

} // verus!
