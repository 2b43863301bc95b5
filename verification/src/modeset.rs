//! The property assignments that put frames on a display.
use crate::property::DisplayProps;
use vstd::prelude::*;

verus! {

#[derive(Clone, Copy, PartialEq, Eq, Structural, Debug)]
pub enum PropValue {
    Crtc(u32),
    Framebuffer(u32),
    Blob(u64),
    Boolean(bool),
    UnsignedRange(u64),
    SignedRange(i64),
}

/// One assignment of an atomic request.
#[derive(Clone, Copy, PartialEq, Eq, Structural, Debug)]
pub struct Assignment {
    pub object: u32,
    pub property: u32,
    pub value: PropValue,
}

/// The objects that frames are shown through, and their properties.
#[derive(Clone, Copy, PartialEq, Eq, Structural, Debug)]
pub struct Pipeline {
    pub conn: u32,
    pub crtc: u32,
    pub plane: u32,
    pub props: DisplayProps,
}

/// A whole number of pixels in 16.16 fixed point.
pub open spec fn fixed_point(pixels: u32) -> u64 {
    (pixels as int * 0x1_0000) as u64
}

fn to_fixed_point(pixels: u32) -> (r: u64)
    ensures
        r == fixed_point(pixels),
        r == pixels * 0x1_0000,
{
    pixels as u64 * 0x1_0000
}

/// The assignments of the plane's source rectangle (in 16.16 fixed point) and of the rectangle
/// that it covers on the CRTC.
pub open spec fn rectangles(p: Pipeline, w: u32, h: u32) -> Seq<Assignment> {
    seq![
        assign(p.plane, p.props.src_x, PropValue::UnsignedRange(0)),
        assign(p.plane, p.props.src_y, PropValue::UnsignedRange(0)),
        assign(p.plane, p.props.src_w, PropValue::UnsignedRange(fixed_point(w))),
        assign(p.plane, p.props.src_h, PropValue::UnsignedRange(fixed_point(h))),
        assign(p.plane, p.props.crtc_x, PropValue::SignedRange(0)),
        assign(p.plane, p.props.crtc_y, PropValue::SignedRange(0)),
        assign(p.plane, p.props.crtc_w, PropValue::UnsignedRange(w as u64)),
        assign(p.plane, p.props.crtc_h, PropValue::UnsignedRange(h as u64)),
    ]
}

pub open spec fn assign(object: u32, property: u32, value: PropValue) -> Assignment {
    Assignment { object, property, value }
}

/// The assignments that hook connector, CRTC and plane together and show `fb`.
pub open spec fn spec_modeset_request(
    p: Pipeline,
    fb: u32,
    mode_blob: u64,
    w: u32,
    h: u32,
) -> Seq<Assignment> {
    seq![
        assign(p.conn, p.props.conn_crtc, PropValue::Crtc(p.crtc)),
        assign(p.crtc, p.props.mode, PropValue::Blob(mode_blob)),
        assign(p.crtc, p.props.active, PropValue::Boolean(true)),
        assign(p.plane, p.props.crtc, PropValue::Crtc(p.crtc)),
        assign(p.plane, p.props.fb, PropValue::Framebuffer(fb)),
    ] + rectangles(p, w, h)
}

fn push_rectangles(p: &Pipeline, w: u32, h: u32, req: &mut Vec<Assignment>)
    ensures
        final(req)@ == old(req)@ + rectangles(*p, w, h),
{
    let plane = p.plane;
    let props = p.props;
    req.push(
        Assignment { object: plane, property: props.src_x, value: PropValue::UnsignedRange(0) },
    );
    req.push(
        Assignment { object: plane, property: props.src_y, value: PropValue::UnsignedRange(0) },
    );
    let sw = to_fixed_point(w);
    let sh = to_fixed_point(h);
    req.push(
        Assignment { object: plane, property: props.src_w, value: PropValue::UnsignedRange(sw) },
    );
    req.push(
        Assignment { object: plane, property: props.src_h, value: PropValue::UnsignedRange(sh) },
    );
    req.push(
        Assignment { object: plane, property: props.crtc_x, value: PropValue::SignedRange(0) },
    );
    req.push(
        Assignment { object: plane, property: props.crtc_y, value: PropValue::SignedRange(0) },
    );
    req.push(
        Assignment {
            object: plane,
            property: props.crtc_w,
            value: PropValue::UnsignedRange(w as u64),
        },
    );
    req.push(
        Assignment {
            object: plane,
            property: props.crtc_h,
            value: PropValue::UnsignedRange(h as u64),
        },
    );
    assert(req@ =~= old(req)@ + rectangles(*p, w, h));
}

/// Builds the request that hooks connector, CRTC and plane together and shows `fb`.
pub fn modeset_request(p: &Pipeline, fb: u32, mode_blob: u64, w: u32, h: u32) -> (r: Vec<
    Assignment,
>)
    ensures
        r@ == spec_modeset_request(*p, fb, mode_blob, w, h),
        covers_display(r@, *p, w, h),
        shows_framebuffer(r@, *p, fb),
{
    let mut req = vec![
        Assignment {
            object: p.conn,
            property: p.props.conn_crtc,
            value: PropValue::Crtc(p.crtc),
        },
        Assignment { object: p.crtc, property: p.props.mode, value: PropValue::Blob(mode_blob) },
        Assignment { object: p.crtc, property: p.props.active, value: PropValue::Boolean(true) },
        Assignment { object: p.plane, property: p.props.crtc, value: PropValue::Crtc(p.crtc) },
        Assignment { object: p.plane, property: p.props.fb, value: PropValue::Framebuffer(fb) },
    ];
    push_rectangles(p, w, h, &mut req);
    proof {
        assert(req@ =~= spec_modeset_request(*p, fb, mode_blob, w, h));
        first_request_covers_the_display(*p, fb, mode_blob, w, h, req@);
        first_request_hooks_the_objects_together(*p, fb, mode_blob, w, h, req@, false);
    }
    req
}

/// The assignments that show another framebuffer of the same size.
pub open spec fn spec_flip_request(p: Pipeline, fb: u32) -> Seq<Assignment> {
    seq![
        assign(p.plane, p.props.crtc, PropValue::Crtc(p.crtc)),
        assign(p.plane, p.props.fb, PropValue::Framebuffer(fb)),
    ]
}

/// Builds the request that shows another framebuffer of the same size.
pub fn flip_request(p: &Pipeline, fb: u32) -> (r: Vec<Assignment>)
    ensures
        r@ == spec_flip_request(*p, fb),
        shows_framebuffer(r@, *p, fb),
{
    let req = vec![
        Assignment { object: p.plane, property: p.props.crtc, value: PropValue::Crtc(p.crtc) },
        Assignment { object: p.plane, property: p.props.fb, value: PropValue::Framebuffer(fb) },
    ];
    proof {
        assert(req@ =~= spec_flip_request(*p, fb));
        assert(req@[1].value == PropValue::Framebuffer(fb));
    }
    req
}

/// The assignments that come before the framebuffer of the first imported frame.
pub open spec fn setup_assignments(p: Pipeline, mode_blob: u64, w: u32, h: u32) -> Seq<Assignment> {
    seq![
        assign(p.plane, p.props.crtc, PropValue::Crtc(p.crtc)),
        assign(p.conn, p.props.conn_crtc, PropValue::Crtc(p.crtc)),
        assign(p.crtc, p.props.mode, PropValue::Blob(mode_blob)),
        assign(p.crtc, p.props.active, PropValue::Boolean(true)),
    ] + rectangles(p, w, h) + (match p.props.zpos {
        Some(zpos) => seq![assign(p.plane, zpos, PropValue::UnsignedRange(1))],
        None => seq![],
    })
}

/// The assignments that show an imported frame: the framebuffer, after everything else that is
/// needed where the display is not set up yet.
pub open spec fn spec_import_request(
    p: Pipeline,
    setup: bool,
    fb: u32,
    mode_blob: u64,
    w: u32,
    h: u32,
) -> Seq<Assignment> {
    (if setup {
        seq![]
    } else {
        setup_assignments(p, mode_blob, w, h)
    }) + seq![assign(p.plane, p.props.fb, PropValue::Framebuffer(fb))]
}

/// Builds the request that shows an imported frame.
pub fn import_request(p: &Pipeline, setup: bool, fb: u32, mode_blob: u64, w: u32, h: u32) -> (r:
    Vec<Assignment>)
    ensures
        r@ == spec_import_request(*p, setup, fb, mode_blob, w, h),
        !setup ==> covers_display(r@, *p, w, h),
        shows_framebuffer(r@, *p, fb),
{
    let mut req: Vec<Assignment> = Vec::new();
    if !setup {
        req.push(
            Assignment { object: p.plane, property: p.props.crtc, value: PropValue::Crtc(p.crtc) },
        );
        req.push(
            Assignment {
                object: p.conn,
                property: p.props.conn_crtc,
                value: PropValue::Crtc(p.crtc),
            },
        );
        req.push(
            Assignment {
                object: p.crtc,
                property: p.props.mode,
                value: PropValue::Blob(mode_blob),
            },
        );
        req.push(
            Assignment {
                object: p.crtc,
                property: p.props.active,
                value: PropValue::Boolean(true),
            },
        );
        push_rectangles(p, w, h, &mut req);
        if let Some(zpos) = p.props.zpos {
            req.push(
                Assignment {
                    object: p.plane,
                    property: zpos,
                    value: PropValue::UnsignedRange(1),
                },
            );
        }
        assert(req@ =~= setup_assignments(*p, mode_blob, w, h));
    }
    req.push(
        Assignment { object: p.plane, property: p.props.fb, value: PropValue::Framebuffer(fb) },
    );
    proof {
        assert(req@ =~= spec_import_request(*p, setup, fb, mode_blob, w, h));
        assert(req@[req@.len() - 1].value == PropValue::Framebuffer(fb));
        if !setup {
            first_request_covers_the_display(*p, fb, mode_blob, w, h, req@);
        }
    }
    req
}

/// The request shows all of a frame of `w` times `h` pixels on a display of that size.
pub open spec fn covers_display(req: Seq<Assignment>, p: Pipeline, w: u32, h: u32) -> bool {
    &&& req.contains(
        Assignment {
            object: p.plane,
            property: p.props.crtc_w,
            value: PropValue::UnsignedRange(w as u64),
        },
    )
    &&& req.contains(
        Assignment {
            object: p.plane,
            property: p.props.crtc_h,
            value: PropValue::UnsignedRange(h as u64),
        },
    )
    &&& req.contains(
        Assignment {
            object: p.plane,
            property: p.props.src_w,
            value: PropValue::UnsignedRange((w * 65536) as u64),
        },
    )
    &&& req.contains(
        Assignment {
            object: p.plane,
            property: p.props.src_h,
            value: PropValue::UnsignedRange((h * 65536) as u64),
        },
    )
}

/// The request puts the framebuffer on the plane.
pub open spec fn shows_framebuffer(req: Seq<Assignment>, p: Pipeline, fb: u32) -> bool {
    req.contains(
        Assignment { object: p.plane, property: p.props.fb, value: PropValue::Framebuffer(fb) },
    )
}

/// How a request is committed.
#[derive(Clone, Copy, PartialEq, Eq, Structural, Debug)]
pub enum CommitMode {
    /// Blocking, and nothing but the plane may change.
    Plain,
    /// The commit may light up a display.
    AllowModeset,
    /// The caller is not blocked until the frame is shown.
    Nonblock,
    /// An event is sent once the frame is shown.
    PageFlipEvent,
}

/// The first imported frame of a display without stacking order makes the same assignments as
/// a modeset with a framebuffer of its own.
pub proof fn first_import_is_a_modeset(
    p: Pipeline,
    fb: u32,
    mode_blob: u64,
    w: u32,
    h: u32,
    a: Assignment,
)
    requires
        p.props.zpos is None,
    ensures
        spec_import_request(p, false, fb, mode_blob, w, h).contains(a) <==> spec_modeset_request(
            p,
            fb,
            mode_blob,
            w,
            h,
        ).contains(a),
{
    let import = spec_import_request(p, false, fb, mode_blob, w, h);
    let modeset = spec_modeset_request(p, fb, mode_blob, w, h);
    assert(import.len() == 13 && modeset.len() == 13);
    assert(modeset[0] == import[1] && modeset[1] == import[2] && modeset[2] == import[3]
        && modeset[3] == import[0] && modeset[4] == import[12] && modeset[5] == import[4]
        && modeset[6] == import[5] && modeset[7] == import[6] && modeset[8] == import[7]
        && modeset[9] == import[8] && modeset[10] == import[9] && modeset[11] == import[10]
        && modeset[12] == import[11]);
    if import.contains(a) {
        let i = choose|i: int| 0 <= i < import.len() && import[i] == a;
        let j: int = if i == 0 {
            3
        } else if i <= 3 {
            i - 1
        } else if i == 12 {
            4
        } else {
            i + 1
        };
        assert(modeset[j] == a);
    }
    if modeset.contains(a) {
        let i = choose|i: int| 0 <= i < modeset.len() && modeset[i] == a;
        let j: int = if i <= 2 {
            i + 1
        } else if i == 3 {
            0
        } else if i == 4 {
            12
        } else {
            i - 1
        };
        assert(import[j] == a);
    }
}

/// A later frame assigns nothing but the framebuffer.
pub proof fn later_import_only_flips(p: Pipeline, fb: u32, mode_blob: u64, w: u32, h: u32)
    ensures
        spec_import_request(p, true, fb, mode_blob, w, h) == seq![
            assign(p.plane, p.props.fb, PropValue::Framebuffer(fb)),
        ],
{
    assert(spec_import_request(p, true, fb, mode_blob, w, h) =~= seq![
        assign(p.plane, p.props.fb, PropValue::Framebuffer(fb)),
    ]);
}

/// The first request for a display of `w` times `h` pixels, of either kind, shows all of the
/// frame on all of the screen: the rectangle on the CRTC is that of the display, and the source
/// rectangle is the same with 16 binary places.
pub proof fn first_request_covers_the_display(
    p: Pipeline,
    fb: u32,
    mode_blob: u64,
    w: u32,
    h: u32,
    req: Seq<Assignment>,
)
    requires
        req == spec_modeset_request(p, fb, mode_blob, w, h) || req == spec_import_request(
            p,
            false,
            fb,
            mode_blob,
            w,
            h,
        ),
    ensures
        req.contains(
            Assignment {
                object: p.plane,
                property: p.props.crtc_x,
                value: PropValue::SignedRange(0),
            },
        ),
        req.contains(
            Assignment {
                object: p.plane,
                property: p.props.crtc_y,
                value: PropValue::SignedRange(0),
            },
        ),
        req.contains(
            Assignment {
                object: p.plane,
                property: p.props.src_x,
                value: PropValue::UnsignedRange(0),
            },
        ),
        req.contains(
            Assignment {
                object: p.plane,
                property: p.props.src_y,
                value: PropValue::UnsignedRange(0),
            },
        ),
        req.contains(
            Assignment {
                object: p.plane,
                property: p.props.crtc_w,
                value: PropValue::UnsignedRange(w as u64),
            },
        ),
        req.contains(
            Assignment {
                object: p.plane,
                property: p.props.crtc_h,
                value: PropValue::UnsignedRange(h as u64),
            },
        ),
        req.contains(
            Assignment {
                object: p.plane,
                property: p.props.src_w,
                value: PropValue::UnsignedRange((w * 65536) as u64),
            },
        ),
        req.contains(
            Assignment {
                object: p.plane,
                property: p.props.src_h,
                value: PropValue::UnsignedRange((h * 65536) as u64),
            },
        ),
        (w * 65536) as u64 == w * 65536 && (h * 65536) as u64 == h * 65536,
{
    let at: int = if req == spec_modeset_request(p, fb, mode_blob, w, h) {
        5
    } else {
        4
    };
    let all = rectangles(p, w, h);
    assert(all.len() == 8);
    assert(req[at] == all[0] && req[at + 1] == all[1] && req[at + 2] == all[2] && req[at + 3]
        == all[3] && req[at + 4] == all[4] && req[at + 5] == all[5] && req[at + 6] == all[6]
        && req[at + 7] == all[7]);
}

/// The first request hooks the three objects together: the connector and the plane get the CRTC,
/// the CRTC gets the mode and is switched on, and the plane gets the framebuffer. An imported
/// frame is also put above the plane below it, where planes can be stacked. Nothing else is
/// touched, and nothing twice.
pub proof fn first_request_hooks_the_objects_together(
    p: Pipeline,
    fb: u32,
    mode_blob: u64,
    w: u32,
    h: u32,
    req: Seq<Assignment>,
    stacked: bool,
)
    requires
        req == spec_modeset_request(p, fb, mode_blob, w, h) && !stacked || req
            == spec_import_request(p, false, fb, mode_blob, w, h) && stacked == (
        p.props.zpos is Some),
    ensures
        req.contains(
            Assignment {
                object: p.conn,
                property: p.props.conn_crtc,
                value: PropValue::Crtc(p.crtc),
            },
        ),
        req.contains(
            Assignment { object: p.plane, property: p.props.crtc, value: PropValue::Crtc(p.crtc) },
        ),
        req.contains(
            Assignment {
                object: p.crtc,
                property: p.props.mode,
                value: PropValue::Blob(mode_blob),
            },
        ),
        req.contains(
            Assignment {
                object: p.crtc,
                property: p.props.active,
                value: PropValue::Boolean(true),
            },
        ),
        req.contains(
            Assignment {
                object: p.plane,
                property: p.props.fb,
                value: PropValue::Framebuffer(fb),
            },
        ),
        stacked ==> req.contains(
            Assignment {
                object: p.plane,
                property: p.props.zpos->0,
                value: PropValue::UnsignedRange(1),
            },
        ),
        req.len() == if stacked {
            14int
        } else {
            13
        },
{
    let modeset = spec_modeset_request(p, fb, mode_blob, w, h);
    let import = spec_import_request(p, false, fb, mode_blob, w, h);
    let all = rectangles(p, w, h);
    assert(all.len() == 8);
    assert(modeset[0].object == p.conn && modeset[1].object == p.crtc && modeset[2].property
        == p.props.active && modeset[3].property == p.props.crtc && modeset[4].property
        == p.props.fb);
    assert(import[0].property == p.props.crtc && import[1].object == p.conn && import[2].property
        == p.props.mode && import[3].property == p.props.active);
    assert(import[import.len() - 1].property == p.props.fb);
    if stacked {
        assert(import[12].value == PropValue::UnsignedRange(1));
    }
}

/// A request that only shows another framebuffer assigns it to the plane, together with the CRTC
/// that the plane is on already, and touches nothing else.
pub proof fn flip_keeps_the_display(p: Pipeline, fb: u32, a: Assignment)
    ensures
        spec_flip_request(p, fb).contains(a) <==> a.object == p.plane && (a.property
            == p.props.fb && a.value == PropValue::Framebuffer(fb) || a.property == p.props.crtc
            && a.value == PropValue::Crtc(p.crtc)),
        spec_flip_request(p, fb).len() == 2,
{
    let req = spec_flip_request(p, fb);
    assert(req[0].value == PropValue::Crtc(p.crtc) && req[1].value == PropValue::Framebuffer(fb));
}

} // verus!
