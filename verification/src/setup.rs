//! From what a card reports to the display that frames are shown on.
use crate::error::{Error, ErrorKind};
use crate::mode::{self, is_picked_mode, is_picked_raw_mode, picked_mode_is_unique};
use crate::mode::picked_raw_mode_is_unique;
use crate::pick::{is_pick, none_fits, pick_is_unique};
use crate::pixel_format::PixelFormat;
use crate::topology::{
    self, plane_fits, plane_special, raw_plane_fits, raw_plane_special, ConnectorInfo, DisplayInfo,
    PlaneInfo,
};
use vstd::prelude::*;

verus! {

/// The display for imported frames: which mode of the connector and which plane.
#[derive(Debug)]
pub struct DisplayPlan {
    pub mode: usize,
    pub plane: usize,
    pub info: DisplayInfo,
}

/// The information says what was chosen.
pub open spec fn info_describes(
    info: DisplayInfo,
    card_path: Seq<char>,
    conn: ConnectorInfo,
    mode: int,
    crtc: u32,
    plane: PlaneInfo,
) -> bool {
    &&& info.card_path@ == card_path
    &&& info.connector_id == conn.handle
    &&& info.connector_type@ == conn.interface_name@
    &&& info.crtc_id == crtc
    &&& info.plane_id == plane.handle
    &&& info.mode == (
        conn.modes@[mode].width as u32,
        conn.modes@[mode].height as u32,
        conn.modes@[mode].vrefresh,
    )
}

impl DisplayPlan {
    /// The plan follows the rules for modes and planes.
    pub open spec fn follows(
        self,
        card_path: Seq<char>,
        conn: ConnectorInfo,
        crtc: u32,
        planes: Seq<PlaneInfo>,
        preferred: Option<(u32, u32, u32)>,
        is_vc4: bool,
    ) -> bool {
        &&& self.mode < conn.modes@.len()
        &&& is_picked_mode(conn.modes@, preferred, self.mode as int)
        &&& is_pick(
            planes.len() as int,
            plane_fits(planes, crtc),
            plane_special(planes, is_vc4),
            self.plane as int,
        )
        &&& info_describes(
            self.info,
            card_path,
            conn,
            self.mode as int,
            crtc,
            planes[self.plane as int],
        )
    }
}

/// Plans the display for imported frames. The connector offers a mode, since it was picked.
pub fn plan_display(
    card_path: &str,
    conn: &ConnectorInfo,
    crtc: u32,
    planes: &Vec<PlaneInfo>,
    preferred: Option<(u32, u32, u32)>,
    is_vc4: bool,
) -> (r: Result<DisplayPlan, Error>)
    ensures
        match r {
            Ok(plan) => plan.follows(card_path@, *conn, crtc, planes@, preferred, is_vc4),
            Err(e) => if conn.modes@.len() == 0 {
                e.says(ErrorKind::NotFound, "connector has no modes"@)
            } else {
                &&& none_fits(planes@.len() as int, plane_fits(planes@, crtc))
                &&& e.says(ErrorKind::NotFound, "no suitable NV12 plane"@)
            },
        },
{
    let chosen: usize = match mode::pick_mode(&conn.modes, preferred) {
        Ok(i) => i,
        Err(e) => {
            return Err(e);
        },
    };
    let plane: usize = match topology::pick_plane(planes, crtc, is_vc4) {
        Ok(i) => i,
        Err(e) => {
            return Err(e);
        },
    };
    let info = topology::build_display_info(
        card_path,
        conn,
        crtc,
        planes[plane].handle,
        conn.modes[chosen],
    );
    Ok(DisplayPlan { mode: chosen, plane, info })
}

/// The display for raw frames: which plane, and which format it scans out.
#[derive(Debug)]
pub struct RawDisplayPlan {
    pub plane: usize,
    pub fb_format: PixelFormat,
    pub info: DisplayInfo,
}

impl RawDisplayPlan {
    /// The plan follows the rules for planes.
    pub open spec fn follows(
        self,
        card_path: Seq<char>,
        conn: ConnectorInfo,
        mode: int,
        crtc: u32,
        planes: Seq<PlaneInfo>,
        format: PixelFormat,
        with_modifier: bool,
    ) -> bool {
        &&& is_pick(
            planes.len() as int,
            raw_plane_fits(planes, crtc, format, with_modifier),
            raw_plane_special(planes, format),
            self.plane as int,
        )
        &&& self.fb_format == (if planes[self.plane as int].scans_out(format.spec_fourcc()) {
            format
        } else {
            format.spec_fb_format()
        })
        &&& info_describes(
            self.info,
            card_path,
            conn,
            mode,
            crtc,
            planes[self.plane as int],
        )
    }
}

/// Plans the display for raw frames, in the given mode of the connector.
pub fn plan_raw_display(
    card_path: &str,
    conn: &ConnectorInfo,
    mode: usize,
    crtc: u32,
    planes: &Vec<PlaneInfo>,
    format: PixelFormat,
    with_modifier: bool,
) -> (r: Result<RawDisplayPlan, Error>)
    requires
        mode < conn.modes@.len(),
    ensures
        match r {
            Ok(plan) => plan.follows(
                card_path@,
                *conn,
                mode as int,
                crtc,
                planes@,
                format,
                with_modifier,
            ),
            Err(e) => none_fits(
                planes@.len() as int,
                raw_plane_fits(planes@, crtc, format, with_modifier),
            ) && e.says(ErrorKind::NotFound, "no compatible plane found for raw format"@),
        },
{
    match topology::find_raw_plane_for_crtc(planes, crtc, format, with_modifier) {
        Ok((plane, fb_format)) => {
            let info = topology::build_display_info(
                card_path,
                conn,
                crtc,
                planes[plane].handle,
                conn.modes[mode],
            );
            Ok(RawDisplayPlan { plane, fb_format, info })
        },
        Err(e) => Err(e),
    }
}

/// A card that reports the same again is planned the same again, so a check for changes finds
/// none.
pub proof fn unchanged_display_is_recognised(
    card_path: Seq<char>,
    conn: ConnectorInfo,
    crtc: u32,
    planes: Seq<PlaneInfo>,
    preferred: Option<(u32, u32, u32)>,
    is_vc4: bool,
    a: DisplayPlan,
    b: DisplayPlan,
)
    requires
        a.follows(card_path, conn, crtc, planes, preferred, is_vc4),
        b.follows(card_path, conn, crtc, planes, preferred, is_vc4),
    ensures
        a.info.same_as(b.info),
        a.mode == b.mode,
        a.plane == b.plane,
{
    picked_mode_is_unique(conn.modes@, preferred, a.mode as int, b.mode as int);
    pick_is_unique(
        planes.len() as int,
        plane_fits(planes, crtc),
        plane_special(planes, is_vc4),
        a.plane as int,
        b.plane as int,
    );
}

/// The same for raw frames.
pub proof fn unchanged_raw_display_is_recognised(
    card_path: Seq<char>,
    conn: ConnectorInfo,
    w: u32,
    h: u32,
    preferred: Option<(u32, u32, u32)>,
    mode_a: int,
    mode_b: int,
    crtc: u32,
    planes: Seq<PlaneInfo>,
    format: PixelFormat,
    with_modifier: bool,
    a: RawDisplayPlan,
    b: RawDisplayPlan,
)
    requires
        is_picked_raw_mode(conn.modes@, w, h, preferred, mode_a),
        is_picked_raw_mode(conn.modes@, w, h, preferred, mode_b),
        a.follows(card_path, conn, mode_a, crtc, planes, format, with_modifier),
        b.follows(card_path, conn, mode_b, crtc, planes, format, with_modifier),
    ensures
        a.info.same_as(b.info),
        a.fb_format == b.fb_format,
{
    picked_raw_mode_is_unique(conn.modes@, w, h, preferred, mode_a, mode_b);
    pick_is_unique(
        planes.len() as int,
        raw_plane_fits(planes, crtc, format, with_modifier),
        raw_plane_special(planes, format),
        a.plane as int,
        b.plane as int,
    );
}

/// What is said of a display is what was chosen: the card, the connector by its handle and kind,
/// the CRTC, the plane by its handle, and the mode by width, height and refresh rate.
pub proof fn plans_describe_the_display(
    plan: DisplayPlan,
    card_path: Seq<char>,
    conn: ConnectorInfo,
    crtc: u32,
    planes: Seq<PlaneInfo>,
    preferred: Option<(u32, u32, u32)>,
    is_vc4: bool,
)
    requires
        plan.follows(card_path, conn, crtc, planes, preferred, is_vc4),
    ensures
        plan.mode < conn.modes@.len() && plan.plane < planes.len(),
        is_picked_mode(conn.modes@, preferred, plan.mode as int),
        is_pick(
            planes.len() as int,
            plane_fits(planes, crtc),
            plane_special(planes, is_vc4),
            plan.plane as int,
        ),
        plan.info.card_path@ == card_path,
        plan.info.connector_id == conn.handle,
        plan.info.connector_type@ == conn.interface_name@,
        plan.info.crtc_id == crtc,
        plan.info.plane_id == planes[plan.plane as int].handle,
        plan.info.mode.0 as int == conn.modes@[plan.mode as int].width as int,
        plan.info.mode.1 as int == conn.modes@[plan.mode as int].height as int,
        plan.info.mode.2 == conn.modes@[plan.mode as int].vrefresh,
{
}

/// The same for raw frames, which are scanned out in their own format where the plane can do so,
/// and otherwise as NV12 made from I420.
pub proof fn raw_plans_describe_the_display(
    plan: RawDisplayPlan,
    card_path: Seq<char>,
    conn: ConnectorInfo,
    mode: int,
    crtc: u32,
    planes: Seq<PlaneInfo>,
    format: PixelFormat,
    with_modifier: bool,
)
    requires
        plan.follows(card_path, conn, mode, crtc, planes, format, with_modifier),
    ensures
        plan.plane < planes.len(),
        is_pick(
            planes.len() as int,
            raw_plane_fits(planes, crtc, format, with_modifier),
            raw_plane_special(planes, format),
            plan.plane as int,
        ),
        ({
            let own = planes[plan.plane as int].formats@.contains(format.spec_fourcc());
            &&& own ==> plan.fb_format == format
            &&& !own ==> format == PixelFormat::I420 && plan.fb_format == PixelFormat::NV12
            &&& planes[plan.plane as int].formats@.contains(plan.fb_format.spec_fourcc())
        }),
        plan.info.card_path@ == card_path,
        plan.info.connector_id == conn.handle,
        plan.info.connector_type@ == conn.interface_name@,
        plan.info.crtc_id == crtc,
        plan.info.plane_id == planes[plan.plane as int].handle,
        plan.info.mode.0 as int == conn.modes@[mode].width as int,
        plan.info.mode.1 as int == conn.modes@[mode].height as int,
        plan.info.mode.2 == conn.modes@[mode].vrefresh,
{
}

} // verus!
