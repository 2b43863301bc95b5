//! Choosing card, connector, CRTC and plane from what the hardware reports.
use crate::error::{Error, ErrorKind};
use crate::fourcc::letters;
use crate::mode::ModeInfo;
use crate::pick::{is_pick, none_fits, some_special};
use crate::pixel_format::{PixelFormat, FOURCC_NV12};
use crate::text;
use vstd::prelude::*;

verus! {

/// The connector types that the choice tells apart.
#[derive(Clone, Copy, PartialEq, Eq, Structural, Debug)]
pub enum Interface {
    HdmiA,
    HdmiB,
    Other,
}

/// What a connector reports.
#[derive(Debug)]
pub struct ConnectorInfo {
    pub handle: u32,
    pub connected: bool,
    pub interface: Interface,
    /// Name of the connector type, for reports.
    pub interface_name: String,
    pub modes: Vec<ModeInfo>,
    pub encoders: Vec<u32>,
}

impl ConnectorInfo {
    /// A display is attached and offers at least one mode.
    pub open spec fn usable(self) -> bool {
        self.connected && self.modes@.len() > 0
    }

    pub open spec fn is_hdmi(self) -> bool {
        self.interface == Interface::HdmiA || self.interface == Interface::HdmiB
    }

    fn check_usable(&self) -> (r: bool)
        ensures
            r == self.usable(),
    {
        self.connected && self.modes.len() > 0
    }

    fn check_hdmi(&self) -> (r: bool)
        ensures
            r == self.is_hdmi(),
    {
        match self.interface {
            Interface::HdmiA | Interface::HdmiB => true,
            Interface::Other => false,
        }
    }

    pub open spec fn spec_settles_choice(self, prefer_hdmi: bool) -> bool {
        self.usable() && (prefer_hdmi ==> self.is_hdmi())
    }

    /// Whether this connector is the choice whatever comes after it: it is usable, and HDMI
    /// where HDMI is preferred.
    pub fn settles_choice(&self, prefer_hdmi: bool) -> (r: bool)
        ensures
            r == (self.usable() && (prefer_hdmi ==> self.is_hdmi())),
            r == self.spec_settles_choice(prefer_hdmi),
    {
        self.check_usable() && (!prefer_hdmi || self.check_hdmi())
    }
}

pub open spec fn connector_fits(conns: Seq<ConnectorInfo>) -> spec_fn(int) -> bool {
    |i: int| conns[i].usable()
}

pub open spec fn connector_special(
    conns: Seq<ConnectorInfo>,
    prefer_hdmi: bool,
) -> spec_fn(int) -> bool {
    |i: int| prefer_hdmi ==> conns[i].is_hdmi()
}

/// The first usable connector, or the first usable HDMI connector where HDMI is preferred and
/// there is one.
pub fn find_connector(conns: &Vec<ConnectorInfo>, prefer_hdmi: bool) -> (r: Option<usize>)
    ensures
        match r {
            Some(i) => is_pick(
                conns@.len() as int,
                connector_fits(conns@),
                connector_special(conns@, prefer_hdmi),
                i as int,
            ),
            None => none_fits(conns@.len() as int, connector_fits(conns@)),
        },
{
    let ghost fits = connector_fits(conns@);
    let ghost special = connector_special(conns@, prefer_hdmi);
    let mut fallback: Option<usize> = None;
    let mut i: usize = 0;
    while i < conns.len()
        invariant
            i <= conns.len(),
            fits == connector_fits(conns@),
            special == connector_special(conns@, prefer_hdmi),
            !some_special(i as int, fits, special),
            match fallback {
                Some(f) => f < i && fits(f as int) && forall|j: int|
                    0 <= j < f ==> !#[trigger] fits(j),
                None => none_fits(i as int, fits),
            },
        decreases conns.len() - i,
    {
        assert(fits(i as int) == conns@[i as int].usable());
        if conns[i].check_usable() {
            if !prefer_hdmi || conns[i].check_hdmi() {
                assert(some_special(conns@.len() as int, fits, special)) by {
                    assert(fits(i as int) && special(i as int));
                }
                return Some(i);
            }
            if fallback.is_none() {
                fallback = Some(i);
            }
        }
        i += 1;
    }
    fallback
}

/// Picks the connector to drive.
pub fn pick_connected_connector(conns: &Vec<ConnectorInfo>, prefer_hdmi: bool) -> (r: Result<
    usize,
    Error,
>)
    ensures
        match r {
            Ok(i) => is_pick(
                conns@.len() as int,
                connector_fits(conns@),
                connector_special(conns@, prefer_hdmi),
                i as int,
            ),
            Err(e) => none_fits(conns@.len() as int, connector_fits(conns@)) && e.says(
                ErrorKind::NotFound,
                "no connected connector"@,
            ),
        },
{
    match find_connector(conns, prefer_hdmi) {
        Some(i) => Ok(i),
        None => Err(Error::new(ErrorKind::NotFound, "no connected connector")),
    }
}

/// The encoder that a connector is driven through: the first it lists.
pub fn first_encoder(encoders: &Vec<u32>) -> (r: Result<u32, Error>)
    ensures
        match r {
            Ok(handle) => encoders@.len() > 0 && handle == encoders@[0],
            Err(e) => encoders@.len() == 0 && e.says(
                ErrorKind::NotFound,
                "connector has no encoders"@,
            ),
        },
{
    if encoders.len() > 0 {
        Ok(encoders[0])
    } else {
        Err(Error::new(ErrorKind::NotFound, "connector has no encoders"))
    }
}

/// The CRTC that an encoder is attached to.
pub fn encoder_crtc(crtc: Option<u32>) -> (r: Result<u32, Error>)
    ensures
        match r {
            Ok(handle) => crtc == Some(handle),
            Err(e) => crtc is None && e.says(ErrorKind::NotFound, "encoder has no crtc"@),
        },
{
    match crtc {
        Some(handle) => Ok(handle),
        None => Err(Error::new(ErrorKind::NotFound, "encoder has no crtc")),
    }
}

/// What a plane reports.
#[derive(Debug)]
pub struct PlaneInfo {
    pub handle: u32,
    /// The CRTCs that the plane can be shown on.
    pub crtcs: Vec<u32>,
    /// The four-character codes that the plane can scan out.
    pub formats: Vec<u32>,
    /// Value of the plane's `type` property: 0 overlay, 1 primary, 2 cursor.
    pub type_value: Option<u64>,
}

impl PlaneInfo {
    pub open spec fn shows_on(self, crtc: u32) -> bool {
        self.crtcs@.contains(crtc)
    }

    pub open spec fn scans_out(self, fourcc: u32) -> bool {
        self.formats@.contains(fourcc)
    }

    /// Whether the plane is an overlay.
    pub fn plane_is_overlay(&self) -> (r: bool)
        ensures
            r == (self.type_value == Some(0u64)),
    {
        match self.type_value {
            Some(value) => value == 0,
            None => false,
        }
    }

    /// Whether the plane is a primary plane.
    pub fn plane_is_primary(&self) -> (r: bool)
        ensures
            r == (self.type_value == Some(1u64)),
    {
        match self.type_value {
            Some(value) => value == 1,
            None => false,
        }
    }
}

fn listed(list: &Vec<u32>, wanted: u32) -> (r: bool)
    ensures
        r == list@.contains(wanted),
{
    let mut i: usize = 0;
    while i < list.len()
        invariant
            i <= list.len(),
            forall|j: int| 0 <= j < i ==> list@[j] != wanted,
        decreases list.len() - i,
    {
        if list[i] == wanted {
            assert(list@[i as int] == wanted);
            return true;
        }
        i += 1;
    }
    false
}

/// Position of a CRTC among those of the card.
pub fn crtc_index(crtcs: &Vec<u32>, crtc: u32) -> (r: Option<usize>)
    ensures
        match r {
            Some(i) => {
                &&& i < crtcs@.len()
                &&& crtcs@[i as int] == crtc
                &&& forall|j: int| 0 <= j < i ==> crtcs@[j] != crtc
            },
            None => !crtcs@.contains(crtc),
        },
{
    let mut i: usize = 0;
    while i < crtcs.len()
        invariant
            i <= crtcs.len(),
            forall|j: int| 0 <= j < i ==> crtcs@[j] != crtc,
        decreases crtcs.len() - i,
    {
        if crtcs[i] == crtc {
            return Some(i);
        }
        i += 1;
    }
    None
}

/// The plane can be shown on the CRTC and, where a code is given, scan that out.
pub open spec fn plane_compatible(p: PlaneInfo, crtc: u32, fourcc: Option<u32>) -> bool {
    p.shows_on(crtc) && (fourcc matches Some(code) ==> p.scans_out(code))
}

/// The first plane compatible with the target CRTC.
pub fn find_plane_for_crtc(planes: &Vec<PlaneInfo>, crtc: u32, fourcc: Option<u32>) -> (r: Option<
    usize,
>)
    ensures
        match r {
            Some(i) => {
                &&& i < planes@.len()
                &&& plane_compatible(planes@[i as int], crtc, fourcc)
                &&& forall|j: int| 0 <= j < i ==> !plane_compatible(planes@[j], crtc, fourcc)
            },
            None => forall|j: int|
                0 <= j < planes@.len() ==> !plane_compatible(planes@[j], crtc, fourcc),
        },
{
    let mut i: usize = 0;
    while i < planes.len()
        invariant
            i <= planes.len(),
            forall|j: int| 0 <= j < i ==> !plane_compatible(planes@[j], crtc, fourcc),
        decreases planes.len() - i,
    {
        let supported = match fourcc {
            Some(code) => listed(&planes[i].formats, code),
            None => true,
        };
        if listed(&planes[i].crtcs, crtc) && supported {
            return Some(i);
        }
        i += 1;
    }
    None
}

pub open spec fn plane_fits(planes: Seq<PlaneInfo>, crtc: u32) -> spec_fn(int) -> bool {
    |i: int| planes[i].shows_on(crtc) && planes[i].scans_out(FOURCC_NV12)
}

pub open spec fn plane_special(planes: Seq<PlaneInfo>, is_vc4: bool) -> spec_fn(int) -> bool {
    |i: int| is_vc4 && planes[i].type_value == Some(0u64)
}

pub open spec fn spec_plane_settles_choice(plane: PlaneInfo, crtc: u32, is_vc4: bool) -> bool {
    plane.shows_on(crtc) && plane.scans_out(FOURCC_NV12) && is_vc4 && plane.type_value == Some(0u64)
}

/// Whether this plane is the choice whatever comes after it.
pub fn plane_settles_choice(plane: &PlaneInfo, crtc: u32, is_vc4: bool) -> (r: bool)
    ensures
        r == (plane.shows_on(crtc) && plane.scans_out(FOURCC_NV12) && is_vc4 && plane.type_value
            == Some(0u64)),
        r == spec_plane_settles_choice(*plane, crtc, is_vc4),
{
    listed(&plane.crtcs, crtc) && listed(&plane.formats, FOURCC_NV12) && is_vc4
        && plane.plane_is_overlay()
}

/// Picks the plane for decoded frames: one that shows NV12 on the CRTC, an overlay if the card
/// is driven by vc4 and has one.
pub fn pick_plane(planes: &Vec<PlaneInfo>, crtc: u32, is_vc4: bool) -> (r: Result<usize, Error>)
    ensures
        match r {
            Ok(i) => is_pick(
                planes@.len() as int,
                plane_fits(planes@, crtc),
                plane_special(planes@, is_vc4),
                i as int,
            ),
            Err(e) => none_fits(planes@.len() as int, plane_fits(planes@, crtc)) && e.says(
                ErrorKind::NotFound,
                "no suitable NV12 plane"@,
            ),
        },
{
    let ghost fits = plane_fits(planes@, crtc);
    let ghost special = plane_special(planes@, is_vc4);
    let mut chosen: Option<usize> = None;
    let mut i: usize = 0;
    while i < planes.len()
        invariant
            i <= planes.len(),
            fits == plane_fits(planes@, crtc),
            special == plane_special(planes@, is_vc4),
            !some_special(i as int, fits, special),
            match chosen {
                Some(f) => f < i && fits(f as int) && forall|j: int|
                    0 <= j < f ==> !#[trigger] fits(j),
                None => none_fits(i as int, fits),
            },
        decreases planes.len() - i,
    {
        assert(fits(i as int) == (planes@[i as int].shows_on(crtc) && planes@[i as int].scans_out(
            FOURCC_NV12,
        )));
        if listed(&planes[i].crtcs, crtc) && listed(&planes[i].formats, FOURCC_NV12) {
            if is_vc4 && planes[i].plane_is_overlay() {
                assert(some_special(planes@.len() as int, fits, special)) by {
                    assert(fits(i as int) && special(i as int));
                }
                return Ok(i);
            }
            if chosen.is_none() {
                chosen = Some(i);
            }
        }
        i += 1;
    }
    match chosen {
        Some(i) => Ok(i),
        None => Err(Error::new(ErrorKind::NotFound, "no suitable NV12 plane")),
    }
}

/// The plane may be considered for raw frames: it shows on the CRTC and, where a modifier is
/// used, it is a primary plane.
pub open spec fn raw_plane_allowed(p: PlaneInfo, crtc: u32, with_modifier: bool) -> bool {
    p.shows_on(crtc) && (with_modifier ==> p.type_value == Some(1u64))
}

pub open spec fn raw_plane_fits(
    planes: Seq<PlaneInfo>,
    crtc: u32,
    format: PixelFormat,
    with_modifier: bool,
) -> spec_fn(int) -> bool {
    |i: int|
        raw_plane_allowed(planes[i], crtc, with_modifier) && (planes[i].scans_out(
            format.spec_fourcc(),
        ) || planes[i].scans_out(format.spec_fb_format().spec_fourcc()))
}

pub open spec fn raw_plane_special(
    planes: Seq<PlaneInfo>,
    format: PixelFormat,
) -> spec_fn(int) -> bool {
    |i: int| planes[i].scans_out(format.spec_fourcc())
}

pub open spec fn spec_raw_plane_settles_choice(
    plane: PlaneInfo,
    crtc: u32,
    format: PixelFormat,
    with_modifier: bool,
) -> bool {
    raw_plane_allowed(plane, crtc, with_modifier) && plane.scans_out(format.spec_fourcc())
}

/// Whether this plane scans out raw frames of the format as they are, so that it is the choice
/// whatever comes after it.
pub fn raw_plane_settles_choice(
    plane: &PlaneInfo,
    crtc: u32,
    format: PixelFormat,
    with_modifier: bool,
) -> (r: bool)
    ensures
        r == (raw_plane_allowed(*plane, crtc, with_modifier) && plane.scans_out(
            format.spec_fourcc(),
        )),
        r == spec_raw_plane_settles_choice(*plane, crtc, format, with_modifier),
{
    listed(&plane.crtcs, crtc) && (!with_modifier || plane.plane_is_primary()) && listed(
        &plane.formats,
        format.fourcc(),
    )
}

/// Finds the plane for raw frames and the format to scan them out in: the frames' own format
/// if some plane supports it, else their scan-out format.
pub fn find_raw_plane_for_crtc(
    planes: &Vec<PlaneInfo>,
    crtc: u32,
    format: PixelFormat,
    with_modifier: bool,
) -> (r: Result<(usize, PixelFormat), Error>)
    ensures
        match r {
            Ok((i, fb_format)) => {
                &&& is_pick(
                    planes@.len() as int,
                    raw_plane_fits(planes@, crtc, format, with_modifier),
                    raw_plane_special(planes@, format),
                    i as int,
                )
                &&& fb_format == (if planes@[i as int].scans_out(format.spec_fourcc()) {
                    format
                } else {
                    format.spec_fb_format()
                })
            },
            Err(e) => none_fits(
                planes@.len() as int,
                raw_plane_fits(planes@, crtc, format, with_modifier),
            ) && e.says(ErrorKind::NotFound, "no compatible plane found for raw format"@),
        },
{
    let ghost fits = raw_plane_fits(planes@, crtc, format, with_modifier);
    let ghost special = raw_plane_special(planes@, format);
    let mut fallback: Option<usize> = None;
    let mut i: usize = 0;
    while i < planes.len()
        invariant
            i <= planes.len(),
            fits == raw_plane_fits(planes@, crtc, format, with_modifier),
            special == raw_plane_special(planes@, format),
            !some_special(i as int, fits, special),
            match fallback {
                Some(f) => f < i && fits(f as int) && forall|j: int|
                    0 <= j < f ==> !#[trigger] fits(j),
                None => none_fits(i as int, fits),
            },
        decreases planes.len() - i,
    {
        let ghost p = planes@[i as int];
        assert(fits(i as int) == (raw_plane_allowed(p, crtc, with_modifier) && (p.scans_out(
            format.spec_fourcc(),
        ) || p.scans_out(format.spec_fb_format().spec_fourcc()))));
        if listed(&planes[i].crtcs, crtc) && (!with_modifier || planes[i].plane_is_primary()) {
            if listed(&planes[i].formats, format.fourcc()) {
                assert(some_special(planes@.len() as int, fits, special)) by {
                    assert(fits(i as int) && special(i as int));
                }
                return Ok((i, format));
            }
            if fallback.is_none() && listed(&planes[i].formats, format.fb_format().fourcc()) {
                fallback = Some(i);
            }
        }
        i += 1;
    }
    match fallback {
        Some(i) => {
            assert(!special(i as int)) by {
                if special(i as int) {
                    assert(some_special(planes@.len() as int, fits, special));
                }
            }
            Ok((i, format.fb_format()))
        },
        None => Err(
            Error::new(ErrorKind::NotFound, "no compatible plane found for raw format"),
        ),
    }
}

/// The display that a pipeline drives.
#[derive(Debug)]
pub struct DisplayInfo {
    pub card_path: String,
    pub connector_id: u32,
    pub connector_type: String,
    pub crtc_id: u32,
    pub plane_id: u32,
    /// Width, height and refresh rate.
    pub mode: (u32, u32, u32),
}

impl DisplayInfo {
    /// The two describe the same display.
    pub open spec fn same_as(self, other: DisplayInfo) -> bool {
        &&& self.card_path@ == other.card_path@
        &&& self.connector_id == other.connector_id
        &&& self.connector_type@ == other.connector_type@
        &&& self.crtc_id == other.crtc_id
        &&& self.plane_id == other.plane_id
        &&& self.mode == other.mode
    }

    /// Whether nothing has changed since `other` was built.
    pub fn is_same(&self, other: &DisplayInfo) -> (r: bool)
        ensures
            r == self.same_as(*other),
    {
        text::same_text(self.card_path.as_str(), other.card_path.as_str()) && self.connector_id
            == other.connector_id && text::same_text(
            self.connector_type.as_str(),
            other.connector_type.as_str(),
        ) && self.crtc_id == other.crtc_id && self.plane_id == other.plane_id && self.mode.0
            == other.mode.0 && self.mode.1 == other.mode.1 && self.mode.2 == other.mode.2
    }

    /// A second record of the same display.
    pub fn copy(&self) -> (r: DisplayInfo)
        ensures
            r.same_as(*self),
    {
        DisplayInfo {
            card_path: self.card_path.clone(),
            connector_id: self.connector_id,
            connector_type: self.connector_type.clone(),
            crtc_id: self.crtc_id,
            plane_id: self.plane_id,
            mode: self.mode,
        }
    }
}

/// Describes the display that was chosen.
pub fn build_display_info(
    card_path: &str,
    conn: &ConnectorInfo,
    crtc: u32,
    plane: u32,
    mode: ModeInfo,
) -> (r: DisplayInfo)
    ensures
        r.card_path@ == card_path@,
        r.connector_id == conn.handle,
        r.connector_type@ == conn.interface_name@,
        r.crtc_id == crtc,
        r.plane_id == plane,
        r.mode == (mode.width as u32, mode.height as u32, mode.vrefresh),
{
    DisplayInfo {
        card_path: card_path.to_owned(),
        connector_id: conn.handle,
        connector_type: conn.interface_name.clone(),
        crtc_id: crtc,
        plane_id: plane,
        mode: (mode.width as u32, mode.height as u32, mode.vrefresh),
    }
}

/// `part` occurs in `s`.
pub open spec fn occurs_in(part: Seq<u8>, s: Seq<u8>) -> bool {
    exists|i: int|
        0 <= i && i + part.len() <= s.len() && #[trigger] s.subrange(i, i + part.len()) == part
}

/// The bytes of `vc4`.
pub open spec fn vc4_name() -> Seq<u8> {
    seq![118u8, 99u8, 52u8]
}

/// Whether a driver of this name is the Raspberry Pi's: `vc4` occurs in the name.
pub fn driver_is_vc4(name: &[u8]) -> (r: bool)
    ensures
        r == occurs_in(vc4_name(), name@),
{
    let mut i: usize = 0;
    while i < name.len()
        invariant
            i <= name.len(),
            forall|j: int|
                0 <= j < i && j + 3 <= name@.len() ==> #[trigger] name@.subrange(j, j + 3)
                    != vc4_name(),
        decreases name.len() - i,
    {
        if name.len() - i >= 3 && name[i] == 118 && name[i + 1] == 99 && name[i + 2] == 52 {
            assert(name@.subrange(i as int, i + 3) =~= vc4_name());
            return true;
        }
        proof {
            if i + 3 <= name@.len() {
                let here = name@.subrange(i as int, i + 3);
                assert(here[0] == name@[i as int] && here[1] == name@[i + 1] && here[2]
                    == name@[i + 2]);
            }
        }
        i += 1;
    }
    false
}

/// An entry below `/dev/dri`.
#[derive(Debug)]
pub struct CardProbe {
    /// File name of the entry.
    pub name: Vec<u8>,
    /// Name of the driver, where the entry could be opened and has one.
    pub driver: Option<Vec<u8>>,
}

impl CardProbe {
    /// A card that vc4 drives.
    pub open spec fn is_vc4(self) -> bool {
        &&& self.name@.len() >= 4
        &&& self.name@.subrange(0, 4) == seq![99u8, 97u8, 114u8, 100u8]
        &&& self.driver matches Some(driver) && occurs_in(vc4_name(), driver@)
    }
}

/// Whether an entry of this name is a card: the name starts with `card`.
pub fn is_card_name(name: &[u8]) -> (r: bool)
    ensures
        r == (name@.len() >= 4 && name@.subrange(0, 4) == seq![99u8, 97u8, 114u8, 100u8]),
{
    let r = name.len() >= 4 && name[0] == 99 && name[1] == 97 && name[2] == 114 && name[3] == 100;
    proof {
        if name@.len() >= 4 {
            let start = name@.subrange(0, 4);
            assert(start[0] == name@[0] && start[1] == name@[1] && start[2] == name@[2] && start[3]
                == name@[3]);
            if r {
                assert(start =~= seq![99u8, 97u8, 114u8, 100u8]);
            }
        }
    }
    r
}

/// Finds the first card that vc4 drives.
pub fn find_vc4_card(probes: &Vec<CardProbe>) -> (r: Result<usize, Error>)
    ensures
        match r {
            Ok(i) => {
                &&& i < probes@.len()
                &&& probes@[i as int].is_vc4()
                &&& forall|j: int| 0 <= j < i ==> !(#[trigger] probes@[j]).is_vc4()
            },
            Err(e) => {
                &&& forall|j: int| 0 <= j < probes@.len() ==> !(#[trigger] probes@[j]).is_vc4()
                &&& e.says(ErrorKind::NotFound, "No vc4 DRM device"@)
            },
        },
{
    let mut i: usize = 0;
    while i < probes.len()
        invariant
            i <= probes.len(),
            forall|j: int| 0 <= j < i ==> !(#[trigger] probes@[j]).is_vc4(),
        decreases probes.len() - i,
    {
        if is_card_name(probes[i].name.as_slice()) {
            if let Some(driver) = &probes[i].driver {
                if driver_is_vc4(driver.as_slice()) {
                    return Ok(i);
                }
            }
        }
        i += 1;
    }
    Err(Error::new(ErrorKind::NotFound, "No vc4 DRM device"))
}

/// The connector that is picked has a display with at least one mode, and it is an HDMI connector
/// wherever HDMI is preferred and some HDMI connector has one. Connectors before it were passed
/// over for a reason: no display, or no HDMI where HDMI was wanted and found.
pub proof fn picked_connector_has_a_display(
    conns: Seq<ConnectorInfo>,
    prefer_hdmi: bool,
    i: int,
    j: int,
)
    requires
        is_pick(
            conns.len() as int,
            connector_fits(conns),
            connector_special(conns, prefer_hdmi),
            i,
        ),
        0 <= j < conns.len(),
    ensures
        0 <= i < conns.len(),
        conns[i].connected && conns[i].modes@.len() > 0,
        prefer_hdmi && conns[j].connected && conns[j].modes@.len() > 0 && conns[j].interface
            != Interface::Other ==> conns[i].interface != Interface::Other && i <= j,
        j < i && conns[j].connected && conns[j].modes@.len() > 0 ==> prefer_hdmi
            && conns[j].interface == Interface::Other && conns[i].interface != Interface::Other,
{
    let fits = connector_fits(conns);
    let special = connector_special(conns, prefer_hdmi);
    assert(fits(i) <==> conns[i].connected && conns[i].modes@.len() > 0);
    assert(fits(j) <==> conns[j].connected && conns[j].modes@.len() > 0);
    assert(conns[i].is_hdmi() <==> conns[i].interface != Interface::Other);
    assert(conns[j].is_hdmi() <==> conns[j].interface != Interface::Other);
    assert(special(i) <==> (prefer_hdmi ==> conns[i].is_hdmi()));
    assert(special(j) <==> (prefer_hdmi ==> conns[j].is_hdmi()));
}

/// No connector is picked only where none has a display with at least one mode.
pub proof fn some_connector_is_picked(conns: Seq<ConnectorInfo>)
    ensures
        none_fits(conns.len() as int, connector_fits(conns)) <==> forall|j: int|
            0 <= j < conns.len() ==> !((#[trigger] conns[j]).connected && conns[j].modes@.len()
                > 0),
{
    let fits = connector_fits(conns);
    assert forall|j: int| #[trigger] fits(j) <==> conns[j].connected && conns[j].modes@.len()
        > 0 by {}
    if none_fits(conns.len() as int, fits) {
        assert forall|j: int| 0 <= j < conns.len() implies !((#[trigger] conns[j]).connected
            && conns[j].modes@.len() > 0) by {
            assert(!fits(j));
        }
    }
}

/// The plane that is picked for decoded frames can be shown on the CRTC and scans out NV12. On a
/// card that vc4 drives it is the first overlay that does so, if there is one; otherwise the first
/// plane.
pub proof fn picked_plane_shows_nv12(
    planes: Seq<PlaneInfo>,
    crtc: u32,
    is_vc4: bool,
    nv12: u32,
    i: int,
    j: int,
)
    requires
        nv12 == letters('N', 'V', '1', '2'),
        is_pick(planes.len() as int, plane_fits(planes, crtc), plane_special(planes, is_vc4), i),
        0 <= j < planes.len(),
    ensures
        0 <= i < planes.len(),
        planes[i].crtcs@.contains(crtc) && planes[i].formats@.contains(nv12),
        is_vc4 && planes[j].crtcs@.contains(crtc) && planes[j].formats@.contains(nv12)
            && planes[j].type_value == Some(0u64) ==> planes[i].type_value == Some(0u64) && i <= j,
        j < i && planes[j].crtcs@.contains(crtc) && planes[j].formats@.contains(nv12) ==> is_vc4
            && planes[j].type_value != Some(0u64) && planes[i].type_value == Some(0u64),
{
    let fits = plane_fits(planes, crtc);
    let special = plane_special(planes, is_vc4);
    crate::fourcc::codes_spell_their_names();
    assert(special(i) <==> is_vc4 && planes[i].type_value == Some(0u64));
    assert(fits(j) <==> planes[j].crtcs@.contains(crtc) && planes[j].formats@.contains(nv12));
    assert(special(j) <==> is_vc4 && planes[j].type_value == Some(0u64));
}

/// No plane is picked for decoded frames only where none shows NV12 on the CRTC.
pub proof fn some_nv12_plane_is_picked(planes: Seq<PlaneInfo>, crtc: u32, nv12: u32)
    requires
        nv12 == letters('N', 'V', '1', '2'),
    ensures
        none_fits(planes.len() as int, plane_fits(planes, crtc)) <==> forall|j: int|
            0 <= j < planes.len() ==> !((#[trigger] planes[j]).crtcs@.contains(crtc)
                && planes[j].formats@.contains(nv12)),
{
    let fits = plane_fits(planes, crtc);
    crate::fourcc::codes_spell_their_names();
    if none_fits(planes.len() as int, fits) {
        assert forall|j: int| 0 <= j < planes.len() implies !((#[trigger] planes[j]).crtcs@.contains(
            crtc,
        ) && planes[j].formats@.contains(nv12)) by {
            assert(!fits(j));
        }
    }
}

/// What raw frames need of a plane: it can be shown on the CRTC, is a primary plane where a
/// modifier is used, and scans out their format, or NV12 in place of I420.
pub open spec fn suits_raw_frames(
    p: PlaneInfo,
    crtc: u32,
    format: PixelFormat,
    with_modifier: bool,
) -> bool {
    &&& p.crtcs@.contains(crtc)
    &&& with_modifier ==> p.type_value == Some(1u64)
    &&& p.formats@.contains(format.spec_fourcc()) || format == PixelFormat::I420
        && p.formats@.contains(PixelFormat::NV12.spec_fourcc())
}

/// The plane that is picked for raw frames suits them, is the first that does so in the frames'
/// own format if there is one, and else the first of all.
pub proof fn picked_raw_plane_suits_the_frames(
    planes: Seq<PlaneInfo>,
    crtc: u32,
    format: PixelFormat,
    with_modifier: bool,
    i: int,
    j: int,
)
    requires
        is_pick(
            planes.len() as int,
            raw_plane_fits(planes, crtc, format, with_modifier),
            raw_plane_special(planes, format),
            i,
        ),
        0 <= j < planes.len(),
    ensures
        0 <= i < planes.len(),
        planes[i].crtcs@.contains(crtc),
        with_modifier ==> planes[i].type_value == Some(1u64),
        planes[i].formats@.contains(format.spec_fourcc()) || format == PixelFormat::I420
            && planes[i].formats@.contains(PixelFormat::NV12.spec_fourcc()),
        suits_raw_frames(planes[j], crtc, format, with_modifier) && planes[j].formats@.contains(
            format.spec_fourcc(),
        ) ==> planes[i].formats@.contains(format.spec_fourcc()) && i <= j,
        suits_raw_frames(planes[j], crtc, format, with_modifier) && j < i
            ==> !planes[j].formats@.contains(format.spec_fourcc()) && planes[i].formats@.contains(
            format.spec_fourcc(),
        ),
{
    let fits = raw_plane_fits(planes, crtc, format, with_modifier);
    let special = raw_plane_special(planes, format);
    assert(special(i) <==> planes[i].formats@.contains(format.spec_fourcc()));
    assert(fits(j) <==> suits_raw_frames(planes[j], crtc, format, with_modifier));
    assert(special(j) <==> planes[j].formats@.contains(format.spec_fourcc()));
}

/// No plane is picked for raw frames only where none suits them.
pub proof fn some_raw_plane_is_picked(
    planes: Seq<PlaneInfo>,
    crtc: u32,
    format: PixelFormat,
    with_modifier: bool,
)
    ensures
        none_fits(
            planes.len() as int,
            raw_plane_fits(planes, crtc, format, with_modifier),
        ) <==> forall|j: int|
            0 <= j < planes.len() ==> !suits_raw_frames(
                #[trigger] planes[j],
                crtc,
                format,
                with_modifier,
            ),
{
    let fits = raw_plane_fits(planes, crtc, format, with_modifier);
    assert forall|j: int| #[trigger] fits(j) <==> suits_raw_frames(
        planes[j],
        crtc,
        format,
        with_modifier,
    ) by {}
    if none_fits(planes.len() as int, fits) {
        assert forall|j: int| 0 <= j < planes.len() implies !suits_raw_frames(
            #[trigger] planes[j],
            crtc,
            format,
            with_modifier,
        ) by {
            assert(!fits(j));
        }
    }
}

/// A plane goes with a CRTC that it lists and, where a code is asked for, lists that too.
pub proof fn compatible_planes_list_what_is_asked(p: PlaneInfo, crtc: u32, fourcc: Option<u32>)
    ensures
        plane_compatible(p, crtc, fourcc) <==> p.crtcs@.contains(crtc) && (fourcc is Some
            ==> p.formats@.contains(fourcc->0)),
{
}

/// Two displays are the same where nothing that is known of them differs: card, connector, kind
/// of connector, CRTC, plane, and the three numbers of the mode.
pub proof fn displays_differ_in_something(a: DisplayInfo, b: DisplayInfo)
    ensures
        a.same_as(b) <==> {
            &&& a.card_path@ == b.card_path@ && a.connector_type@ == b.connector_type@
            &&& a.connector_id == b.connector_id
            &&& a.crtc_id == b.crtc_id
            &&& a.plane_id == b.plane_id
            &&& a.mode.0 == b.mode.0 && a.mode.1 == b.mode.1 && a.mode.2 == b.mode.2
        },
        a.same_as(a),
        a.same_as(b) <==> b.same_as(a),
{
}

/// A card of the Raspberry Pi is an entry whose name starts with the letters of `card` and whose
/// driver has the letters of `vc4` somewhere in its name.
pub proof fn vc4_cards_are_named_so(probe: CardProbe)
    ensures
        probe.is_vc4() <==> {
            let name = probe.name@;
            &&& name.len() >= 4
            &&& name[0] as int == 'c' as int && name[1] as int == 'a' as int && name[2] as int
                == 'r' as int && name[3] as int == 'd' as int
            &&& probe.driver is Some
            &&& exists|k: int|
                {
                    &&& 0 <= k && k + 3 <= probe.driver->0@.len()
                    &&& #[trigger] probe.driver->0@[k] as int == 'v' as int
                    &&& probe.driver->0@[k + 1] as int == 'c' as int
                    &&& probe.driver->0@[k + 2] as int == '4' as int
                }
        },
{
    let name = probe.name@;
    let card = seq![99u8, 97u8, 114u8, 100u8];
    if name.len() >= 4 {
        let start = name.subrange(0, 4);
        assert(start[0] == name[0] && start[1] == name[1] && start[2] == name[2] && start[3]
            == name[3]);
        if name[0] == 99 && name[1] == 97 && name[2] == 114 && name[3] == 100 {
            assert(start =~= card);
        }
    }
    if probe.driver is Some {
        let driver = probe.driver->0@;
        if occurs_in(vc4_name(), driver) {
            let k = choose|k: int|
                0 <= k && k + vc4_name().len() <= driver.len() && #[trigger] driver.subrange(
                    k,
                    k + vc4_name().len(),
                ) == vc4_name();
            let part = driver.subrange(k, k + 3);
            assert(part[0] == driver[k] && part[1] == driver[k + 1] && part[2] == driver[k + 2]);
            assert(driver[k] as int == 'v' as int);
        }
        if exists|k: int|
            {
                &&& 0 <= k && k + 3 <= driver.len()
                &&& #[trigger] driver[k] as int == 'v' as int && driver[k + 1] as int == 'c' as int
                    && driver[k + 2] as int == '4' as int
            } {
            let k = choose|k: int|
                {
                    &&& 0 <= k && k + 3 <= driver.len()
                    &&& #[trigger] driver[k] as int == 'v' as int && driver[k + 1] as int
                        == 'c' as int && driver[k + 2] as int == '4' as int
                };
            assert(driver.subrange(k, k + vc4_name().len()) =~= vc4_name());
        }
    }
}

/// The first connector that settles the choice is the one that is picked among all, so those
/// after it need not be looked at.
pub proof fn settled_connector_is_picked(
    conns: Seq<ConnectorInfo>,
    prefer_hdmi: bool,
    k: int,
    i: int,
)
    requires
        0 <= k < conns.len(),
        conns[k].spec_settles_choice(prefer_hdmi),
        forall|j: int| 0 <= j < k ==> !(#[trigger] conns[j]).spec_settles_choice(prefer_hdmi),
    ensures
        is_pick(
            conns.len() as int,
            connector_fits(conns),
            connector_special(conns, prefer_hdmi),
            i,
        ) <==> i == k,
        conns[k].connected && conns[k].modes@.len() > 0,
        prefer_hdmi ==> conns[k].interface != Interface::Other,
{
    let fits = connector_fits(conns);
    let special = connector_special(conns, prefer_hdmi);
    let n = conns.len() as int;
    assert(fits(k) && special(k));
    assert(some_special(n, fits, special));
    assert forall|j: int| 0 <= j < k implies !(#[trigger] fits(j) && special(j)) by {
        assert(!conns[j].spec_settles_choice(prefer_hdmi));
    }
    assert(is_pick(n, fits, special, k));
    if is_pick(n, fits, special, i) {
        crate::pick::pick_is_unique(n, fits, special, i, k);
    }
}

/// The same for planes that show decoded frames.
pub proof fn settled_plane_is_picked(
    planes: Seq<PlaneInfo>,
    crtc: u32,
    is_vc4: bool,
    k: int,
    i: int,
)
    requires
        0 <= k < planes.len(),
        spec_plane_settles_choice(planes[k], crtc, is_vc4),
        forall|j: int|
            0 <= j < k ==> !spec_plane_settles_choice(#[trigger] planes[j], crtc, is_vc4),
    ensures
        is_pick(planes.len() as int, plane_fits(planes, crtc), plane_special(planes, is_vc4), i)
            <==> i == k,
        is_vc4 && planes[k].type_value == Some(0u64),
        planes[k].crtcs@.contains(crtc) && planes[k].formats@.contains(FOURCC_NV12),
{
    let fits = plane_fits(planes, crtc);
    let special = plane_special(planes, is_vc4);
    let n = planes.len() as int;
    assert(fits(k) && special(k));
    assert(some_special(n, fits, special));
    assert forall|j: int| 0 <= j < k implies !(#[trigger] fits(j) && special(j)) by {
        assert(!spec_plane_settles_choice(planes[j], crtc, is_vc4));
    }
    assert(is_pick(n, fits, special, k));
    if is_pick(n, fits, special, i) {
        crate::pick::pick_is_unique(n, fits, special, i, k);
    }
}

/// The same for planes that show raw frames.
pub proof fn settled_raw_plane_is_picked(
    planes: Seq<PlaneInfo>,
    crtc: u32,
    format: PixelFormat,
    with_modifier: bool,
    k: int,
    i: int,
)
    requires
        0 <= k < planes.len(),
        spec_raw_plane_settles_choice(planes[k], crtc, format, with_modifier),
        forall|j: int|
            0 <= j < k ==> !spec_raw_plane_settles_choice(
                #[trigger] planes[j],
                crtc,
                format,
                with_modifier,
            ),
    ensures
        is_pick(
            planes.len() as int,
            raw_plane_fits(planes, crtc, format, with_modifier),
            raw_plane_special(planes, format),
            i,
        ) <==> i == k,
        planes[k].crtcs@.contains(crtc) && planes[k].formats@.contains(format.spec_fourcc()),
        with_modifier ==> planes[k].type_value == Some(1u64),
{
    let fits = raw_plane_fits(planes, crtc, format, with_modifier);
    let special = raw_plane_special(planes, format);
    let n = planes.len() as int;
    assert(fits(k) && special(k));
    assert(some_special(n, fits, special));
    assert forall|j: int| 0 <= j < k implies !(#[trigger] fits(j) && special(j)) by {
        assert(!spec_raw_plane_settles_choice(planes[j], crtc, format, with_modifier));
    }
    assert(is_pick(n, fits, special, k));
    if is_pick(n, fits, special, i) {
        crate::pick::pick_is_unique(n, fits, special, i, k);
    }
}

} // verus!
