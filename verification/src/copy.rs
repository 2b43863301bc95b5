//! Copying packed frames into pitched scan-out buffers.
use crate::frame_laws::{
    copied_frame_is_held, copied_plane_is_held, interleaved_frame_is_held,
};
use crate::paint::{self, painted, row_set, rows_fit};
use crate::pixel_format::PixelFormat;
use vstd::prelude::*;

verus! {

/// One plane of a frame: where it lies in the packed source and where it goes.
pub struct PlaneRect {
    /// First byte of the plane in the source.
    pub from: int,
    /// First byte of the plane in the destination.
    pub base: int,
    /// Bytes per row.
    pub width: int,
    pub rows: int,
}

/// Byte `x` of row `r` of a packed plane that starts at `from` and has `width` bytes per row.
pub open spec fn plane_px(src: Seq<u8>, from: int, width: int) -> spec_fn(int, int) -> u8 {
    |r: int, x: int| src[from + r * width + x]
}

/// `dst` after the plane was copied.
pub open spec fn plane_copied(dst: Seq<u8>, src: Seq<u8>, pitch: int, p: PlaneRect) -> Seq<u8> {
    painted(dst, p.base, pitch, p.width, p.rows, plane_px(src, p.from, p.width))
}

/// `dst` after the planes were copied, one after the other.
pub open spec fn planes_copied(
    dst: Seq<u8>,
    src: Seq<u8>,
    pitch: int,
    planes: Seq<PlaneRect>,
) -> Seq<u8>
    decreases planes.len(),
{
    if planes.len() == 0 {
        dst
    } else {
        plane_copied(planes_copied(dst, src, pitch, planes.drop_last()), src, pitch, planes.last())
    }
}

/// The plane lies inside the source, and its rows inside the destination.
pub open spec fn plane_fits(src_len: int, dst_len: int, pitch: int, p: PlaneRect) -> bool {
    &&& p.from + p.width * p.rows <= src_len
    &&& rows_fit(dst_len, p.base, pitch, p.width, p.rows)
}

pub open spec fn planes_fit(
    src_len: int,
    dst_len: int,
    pitch: int,
    planes: Seq<PlaneRect>,
) -> bool {
    forall|i: int|
        0 <= i < planes.len() ==> plane_fits(src_len, dst_len, pitch, #[trigger] planes[i])
}

/// Full-resolution first plane, as all formats with several planes have it.
pub open spec fn luma(w: int, h: int) -> PlaneRect {
    PlaneRect { from: 0, base: 0, width: w, rows: h }
}

/// Three planes below each other, the second and third of `cw` times `ch` bytes.
pub open spec fn three_planes(pitch: int, w: int, h: int, cw: int, ch: int) -> Seq<PlaneRect> {
    seq![
        luma(w, h),
        PlaneRect { from: w * h, base: pitch * h, width: cw, rows: ch },
        PlaneRect { from: w * h + cw * ch, base: pitch * h + pitch * ch, width: cw, rows: ch },
    ]
}

/// Planes of I420 and YV12 frames: both chroma planes are halved in width and height.
pub open spec fn i420_planes(pitch: int, w: int, h: int) -> Seq<PlaneRect> {
    three_planes(pitch, w, h, w / 2, h / 2)
}

/// Planes of I422 frames: both chroma planes are halved in width.
pub open spec fn i422_planes(pitch: int, w: int, h: int) -> Seq<PlaneRect> {
    three_planes(pitch, w, h, w / 2, h)
}

/// Planes of I444 frames: three planes of full resolution.
pub open spec fn i444_planes(pitch: int, w: int, h: int) -> Seq<PlaneRect> {
    three_planes(pitch, w, h, w, h)
}

/// Planes of NV12 and NV21 frames: one chroma plane of interleaved samples, halved in height.
pub open spec fn nv12_planes(pitch: int, w: int, h: int) -> Seq<PlaneRect> {
    seq![luma(w, h), PlaneRect { from: w * h, base: pitch * h, width: w, rows: h / 2 }]
}

/// The single plane of a packed format.
pub open spec fn packed_planes(w: int, h: int, bytes_per_pixel: int) -> Seq<PlaneRect> {
    seq![luma(w * bytes_per_pixel, h)]
}

/// The planes of a frame of the given format.
pub open spec fn frame_planes(format: PixelFormat, pitch: int, w: int, h: int) -> Seq<PlaneRect> {
    match format {
        PixelFormat::I420 | PixelFormat::YV12 => i420_planes(pitch, w, h),
        PixelFormat::I422 => i422_planes(pitch, w, h),
        PixelFormat::I444 => i444_planes(pitch, w, h),
        PixelFormat::NV12 | PixelFormat::NV21 => nv12_planes(pitch, w, h),
        _ => packed_planes(w, h, format.pixel_bytes()),
    }
}

/// Byte `x` of row `r` of an image whose rows start `stride` bytes apart from `from` on.
pub open spec fn byte_at(image: Seq<u8>, from: int, stride: int, r: int, x: int) -> u8 {
    image[from + r * stride + x]
}

/// `rows` rows of `width` bytes are the same in a buffer, from `base` on with rows `pitch` bytes
/// apart, as in a packed frame from `from` on.
pub open spec fn same_rows(
    dst: Seq<u8>,
    base: int,
    pitch: int,
    src: Seq<u8>,
    from: int,
    width: int,
    rows: int,
) -> bool {
    forall|r: int, x: int|
        0 <= r < rows && 0 <= x < width ==> #[trigger] byte_at(dst, base, pitch, r, x) == byte_at(
            src,
            from,
            width,
            r,
            x,
        )
}

/// The buffer shows the packed frame: each plane of it, in the order of the frame, below the one
/// before.
pub open spec fn holds_frame(
    dst: Seq<u8>,
    src: Seq<u8>,
    pitch: int,
    w: int,
    h: int,
    format: PixelFormat,
) -> bool {
    match format {
        PixelFormat::I420 | PixelFormat::YV12 => {
            &&& same_rows(dst, 0, pitch, src, 0, w, h)
            &&& same_rows(dst, pitch * h, pitch, src, w * h, w / 2, h / 2)
            &&& same_rows(
                dst,
                pitch * h + pitch * (h / 2),
                pitch,
                src,
                w * h + (w / 2) * (h / 2),
                w / 2,
                h / 2,
            )
        },
        PixelFormat::I422 => {
            &&& same_rows(dst, 0, pitch, src, 0, w, h)
            &&& same_rows(dst, pitch * h, pitch, src, w * h, w / 2, h)
            &&& same_rows(dst, pitch * h + pitch * h, pitch, src, w * h + (w / 2) * h, w / 2, h)
        },
        PixelFormat::I444 => {
            &&& same_rows(dst, 0, pitch, src, 0, w, h)
            &&& same_rows(dst, pitch * h, pitch, src, w * h, w, h)
            &&& same_rows(dst, pitch * h + pitch * h, pitch, src, w * h + w * h, w, h)
        },
        PixelFormat::NV12 | PixelFormat::NV21 => {
            &&& same_rows(dst, 0, pitch, src, 0, w, h)
            &&& same_rows(dst, pitch * h, pitch, src, w * h, w, h / 2)
        },
        PixelFormat::RGB => same_rows(dst, 0, pitch, src, 0, w * 3, h),
        PixelFormat::YUY2 => same_rows(dst, 0, pitch, src, 0, w * 2, h),
        PixelFormat::BGRA | PixelFormat::RGBA | PixelFormat::AYUV => same_rows(
            dst,
            0,
            pitch,
            src,
            0,
            w * 4,
            h,
        ),
    }
}

/// The buffer shows the packed I420 frame as NV12: the rows of its first plane, and below them
/// rows of sample pairs, U before V.
pub open spec fn holds_interleaved(dst: Seq<u8>, src: Seq<u8>, pitch: int, w: int, h: int) -> bool {
    &&& same_rows(dst, 0, pitch, src, 0, w, h)
    &&& forall|r: int, x: int|
        0 <= r < h / 2 && 0 <= x < w / 2 ==> {
            &&& #[trigger] byte_at(dst, pitch * h, pitch, r, 2 * x) == byte_at(
                src,
                w * h,
                w / 2,
                r,
                x,
            )
            &&& byte_at(dst, pitch * h, pitch, r, 2 * x + 1) == byte_at(
                src,
                w * h + (w / 2) * (h / 2),
                w / 2,
                r,
                x,
            )
        }
}

fn copy_row(src: &[u8], from: usize, dst: &mut [u8], at: usize, n: usize)
    requires
        from + n <= src@.len(),
        at + n <= old(dst)@.len(),
    ensures
        final(dst)@ == row_set(old(dst)@, at as int, n as int, |x: int| src@[from + x]),
{
    let ghost before = dst@;
    let mut x: usize = 0;
    while x < n
        invariant
            x <= n,
            from + n <= src@.len(),
            at + n <= dst@.len(),
            dst@ == row_set(before, at as int, x as int, |x: int| src@[from + x]),
        decreases n - x,
    {
        assert(src.len() == src@.len() && dst.len() == dst@.len());
        dst[at + x] = src[from + x];
        x += 1;
        assert(dst@ =~= row_set(before, at as int, x as int, |x: int| src@[from + x]));
    }
    assert(dst@ =~= row_set(before, at as int, n as int, |x: int| src@[from + x]));
}

/// Copies the plane at `from` into the rows that start at `base`.
fn copy_rows(
    src: &[u8],
    from: usize,
    dst: &mut [u8],
    base: usize,
    pitch: usize,
    w: usize,
    h: usize,
)
    requires
        plane_fits(
            src@.len() as int,
            old(dst)@.len() as int,
            pitch as int,
            (PlaneRect { from: from as int, base: base as int, width: w as int, rows: h as int }),
        ),
    ensures
        final(dst)@ == plane_copied(
            old(dst)@,
            src@,
            pitch as int,
            (PlaneRect { from: from as int, base: base as int, width: w as int, rows: h as int }),
        ),
{
    let ghost before = dst@;
    let ghost px = plane_px(src@, from as int, w as int);
    let mut y: usize = 0;
    assert(dst@ =~= painted(before, base as int, pitch as int, w as int, 0, px));
    while y < h
        invariant
            y <= h,
            px == plane_px(src@, from as int, w as int),
            from + w * h <= src@.len(),
            rows_fit(before.len() as int, base as int, pitch as int, w as int, h as int),
            dst@.len() == before.len(),
            dst@ == painted(before, base as int, pitch as int, w as int, y as int, px),
        decreases h - y,
    {
        proof {
            assert(src.len() == src@.len() && dst.len() == dst@.len());
            assert(0 <= y * pitch <= (h - 1) * pitch) by (nonlinear_arith)
                requires
                    0 <= y <= h - 1,
                    0 <= pitch,
            ;
            assert(0 <= y * w && y * w + w <= w * h) by (nonlinear_arith)
                requires
                    0 <= y <= h - 1,
                    0 <= w,
            ;
        }
        copy_row(src, from + y * w, dst, base + y * pitch, w);
        proof {
            paint::lemma_paint_row(before, base as int, pitch as int, w as int, y as int, px);
            assert(dst@ =~= painted(before, base as int, pitch as int, w as int, y + 1, px));
        }
        y += 1;
    }
}

/// Copies a packed plane of `w` times `h` bytes into rows that start `pitch` bytes apart.
pub fn copy_plane(src: &[u8], dst: &mut [u8], pitch: usize, w: usize, h: usize)
    requires
        plane_fits(
            src@.len() as int,
            old(dst)@.len() as int,
            pitch as int,
            luma(w as int, h as int),
        ),
    ensures
        final(dst)@ == plane_copied(old(dst)@, src@, pitch as int, luma(w as int, h as int)),
        w <= pitch ==> same_rows(final(dst)@, 0, pitch as int, src@, 0, w as int, h as int),
{
    copy_rows(src, 0, dst, 0, pitch, w, h);
    proof {
        if w <= pitch {
            copied_plane_is_held(old(dst)@, src@, pitch as int, w as int, h as int);
        }
    }
}

/// Copies the first plane and then two chroma planes of `cw` times `ch` bytes below it.
fn copy_three_planes(
    src: &[u8],
    dst: &mut [u8],
    pitch: usize,
    w: usize,
    h: usize,
    cw: usize,
    ch: usize,
)
    requires
        planes_fit(
            src@.len() as int,
            old(dst)@.len() as int,
            pitch as int,
            three_planes(pitch as int, w as int, h as int, cw as int, ch as int),
        ),
    ensures
        final(dst)@ == planes_copied(
            old(dst)@,
            src@,
            pitch as int,
            three_planes(pitch as int, w as int, h as int, cw as int, ch as int),
        ),
{
    let ghost planes = three_planes(pitch as int, w as int, h as int, cw as int, ch as int);
    let ghost before = dst@;
    proof {
        assert(plane_fits(src@.len() as int, before.len() as int, pitch as int, planes[0]));
        assert(plane_fits(src@.len() as int, before.len() as int, pitch as int, planes[1]));
        assert(plane_fits(src@.len() as int, before.len() as int, pitch as int, planes[2]));
        assert(src.len() == src@.len() && dst.len() == dst@.len());
        assert(w * h >= 0 && cw * ch >= 0 && pitch * h >= 0 && pitch * ch >= 0) by (
        nonlinear_arith);
    }
    copy_rows(src, 0, dst, 0, pitch, w, h);
    let size: usize = cw * ch;
    let second: usize = pitch * h;
    copy_rows(src, w * h, dst, second, pitch, cw, ch);
    copy_rows(src, w * h + size, dst, second + pitch * ch, pitch, cw, ch);
    proof {
        let one = planes.drop_last().drop_last();
        assert(one.drop_last() =~= Seq::<PlaneRect>::empty());
        reveal_with_fuel(planes_copied, 4);
    }
}

/// Copies a packed I420 frame.
pub fn copy_i420_frame(src: &[u8], dst: &mut [u8], pitch: usize, w: usize, h: usize)
    requires
        planes_fit(
            src@.len() as int,
            old(dst)@.len() as int,
            pitch as int,
            i420_planes(pitch as int, w as int, h as int),
        ),
    ensures
        final(dst)@ == planes_copied(
            old(dst)@,
            src@,
            pitch as int,
            i420_planes(pitch as int, w as int, h as int),
        ),
        w <= pitch ==> holds_frame(
            final(dst)@,
            src@,
            pitch as int,
            w as int,
            h as int,
            PixelFormat::I420,
        ),
{
    copy_three_planes(src, dst, pitch, w, h, w / 2, h / 2);
    proof {
        if w <= pitch {
            copied_frame_is_held(old(dst)@, src@, pitch as int, w as int, h as int, PixelFormat::I420);
        }
    }
}

/// Copies a packed I422 frame.
pub fn copy_i422_frame(src: &[u8], dst: &mut [u8], pitch: usize, w: usize, h: usize)
    requires
        planes_fit(
            src@.len() as int,
            old(dst)@.len() as int,
            pitch as int,
            i422_planes(pitch as int, w as int, h as int),
        ),
    ensures
        final(dst)@ == planes_copied(
            old(dst)@,
            src@,
            pitch as int,
            i422_planes(pitch as int, w as int, h as int),
        ),
        w <= pitch ==> holds_frame(
            final(dst)@,
            src@,
            pitch as int,
            w as int,
            h as int,
            PixelFormat::I422,
        ),
{
    copy_three_planes(src, dst, pitch, w, h, w / 2, h);
    proof {
        if w <= pitch {
            copied_frame_is_held(old(dst)@, src@, pitch as int, w as int, h as int, PixelFormat::I422);
        }
    }
}

/// Copies a packed I444 frame.
pub fn copy_i444_frame(src: &[u8], dst: &mut [u8], pitch: usize, w: usize, h: usize)
    requires
        planes_fit(
            src@.len() as int,
            old(dst)@.len() as int,
            pitch as int,
            i444_planes(pitch as int, w as int, h as int),
        ),
    ensures
        final(dst)@ == planes_copied(
            old(dst)@,
            src@,
            pitch as int,
            i444_planes(pitch as int, w as int, h as int),
        ),
        w <= pitch ==> holds_frame(
            final(dst)@,
            src@,
            pitch as int,
            w as int,
            h as int,
            PixelFormat::I444,
        ),
{
    copy_three_planes(src, dst, pitch, w, h, w, h);
    proof {
        if w <= pitch {
            copied_frame_is_held(old(dst)@, src@, pitch as int, w as int, h as int, PixelFormat::I444);
        }
    }
}

/// Copies a packed NV12 or NV21 frame.
pub fn copy_nv12_frame(src: &[u8], dst: &mut [u8], pitch: usize, w: usize, h: usize)
    requires
        planes_fit(
            src@.len() as int,
            old(dst)@.len() as int,
            pitch as int,
            nv12_planes(pitch as int, w as int, h as int),
        ),
    ensures
        final(dst)@ == planes_copied(
            old(dst)@,
            src@,
            pitch as int,
            nv12_planes(pitch as int, w as int, h as int),
        ),
        w <= pitch ==> holds_frame(
            final(dst)@,
            src@,
            pitch as int,
            w as int,
            h as int,
            PixelFormat::NV12,
        ),
{
    let ghost planes = nv12_planes(pitch as int, w as int, h as int);
    let ghost before = dst@;
    proof {
        assert(plane_fits(src@.len() as int, before.len() as int, pitch as int, planes[0]));
        assert(plane_fits(src@.len() as int, before.len() as int, pitch as int, planes[1]));
        assert(src.len() == src@.len() && dst.len() == dst@.len());
        assert(w * h >= 0 && w * (h / 2) >= 0 && pitch * h >= 0) by (nonlinear_arith);
    }
    copy_rows(src, 0, dst, 0, pitch, w, h);
    copy_rows(src, w * h, dst, pitch * h, pitch, w, h / 2);
    proof {
        assert(planes.drop_last().drop_last() =~= Seq::<PlaneRect>::empty());
        reveal_with_fuel(planes_copied, 3);
    }
    proof {
        if w <= pitch {
            copied_frame_is_held(old(dst)@, src@, pitch as int, w as int, h as int, PixelFormat::NV12);
        }
    }
}

/// Copies a packed YV12 frame; its planes lie as those of I420 do, with V before U.
pub fn copy_yv12_frame(src: &[u8], dst: &mut [u8], pitch: usize, w: usize, h: usize)
    requires
        planes_fit(
            src@.len() as int,
            old(dst)@.len() as int,
            pitch as int,
            i420_planes(pitch as int, w as int, h as int),
        ),
    ensures
        final(dst)@ == planes_copied(
            old(dst)@,
            src@,
            pitch as int,
            i420_planes(pitch as int, w as int, h as int),
        ),
        w <= pitch ==> holds_frame(
            final(dst)@,
            src@,
            pitch as int,
            w as int,
            h as int,
            PixelFormat::YV12,
        ),
{
    copy_three_planes(src, dst, pitch, w, h, w / 2, h / 2);
    proof {
        if w <= pitch {
            copied_frame_is_held(old(dst)@, src@, pitch as int, w as int, h as int, PixelFormat::YV12);
        }
    }
}

/// Copies a packed frame of one plane.
pub fn copy_packed_frame(
    src: &[u8],
    dst: &mut [u8],
    pitch: usize,
    w: usize,
    h: usize,
    bytes_per_pixel: usize,
)
    requires
        w * bytes_per_pixel <= usize::MAX,
        planes_fit(
            src@.len() as int,
            old(dst)@.len() as int,
            pitch as int,
            packed_planes(w as int, h as int, bytes_per_pixel as int),
        ),
    ensures
        final(dst)@ == planes_copied(
            old(dst)@,
            src@,
            pitch as int,
            packed_planes(w as int, h as int, bytes_per_pixel as int),
        ),
        w * bytes_per_pixel <= pitch ==> same_rows(
            final(dst)@,
            0,
            pitch as int,
            src@,
            0,
            w * bytes_per_pixel,
            h as int,
        ),
{
    let ghost planes = packed_planes(w as int, h as int, bytes_per_pixel as int);
    let ghost before = dst@;
    proof {
        assert(plane_fits(src@.len() as int, before.len() as int, pitch as int, planes[0]));
        assert(w * bytes_per_pixel >= 0) by (nonlinear_arith);
    }
    copy_rows(src, 0, dst, 0, pitch, w * bytes_per_pixel, h);
    proof {
        assert(planes.drop_last() =~= Seq::<PlaneRect>::empty());
        reveal_with_fuel(planes_copied, 2);
    }
    proof {
        if w * bytes_per_pixel <= pitch {
            copied_plane_is_held(before, src@, pitch as int, w * bytes_per_pixel, h as int);
        }
    }
}

/// Copies a packed frame of the given format, plane by plane.
pub fn copy_frame(
    src: &[u8],
    dst: &mut [u8],
    pitch: usize,
    w: usize,
    h: usize,
    format: PixelFormat,
)
    requires
        w * format.pixel_bytes() <= usize::MAX,
        planes_fit(
            src@.len() as int,
            old(dst)@.len() as int,
            pitch as int,
            frame_planes(format, pitch as int, w as int, h as int),
        ),
    ensures
        final(dst)@ == planes_copied(
            old(dst)@,
            src@,
            pitch as int,
            frame_planes(format, pitch as int, w as int, h as int),
        ),
        w * format.pixel_bytes() <= pitch ==> holds_frame(
            final(dst)@,
            src@,
            pitch as int,
            w as int,
            h as int,
            format,
        ),
{
    proof {
        if w * format.pixel_bytes() <= pitch {
            copied_frame_is_held(dst@, src@, pitch as int, w as int, h as int, format);
        }
    }
    match format {
        PixelFormat::I420 => copy_i420_frame(src, dst, pitch, w, h),
        PixelFormat::I422 => copy_i422_frame(src, dst, pitch, w, h),
        PixelFormat::I444 => copy_i444_frame(src, dst, pitch, w, h),
        PixelFormat::NV12 | PixelFormat::NV21 => copy_nv12_frame(src, dst, pitch, w, h),
        PixelFormat::YV12 => copy_yv12_frame(src, dst, pitch, w, h),
        PixelFormat::RGB => copy_packed_frame(src, dst, pitch, w, h, 3),
        PixelFormat::BGRA | PixelFormat::RGBA | PixelFormat::AYUV => copy_packed_frame(
            src,
            dst,
            pitch,
            w,
            h,
            4,
        ),
        PixelFormat::YUY2 => copy_packed_frame(src, dst, pitch, w, h, 2),
    }
}

/// Sample `x` of row `r` of the interleaved chroma plane made from two packed planes: U at even
/// positions, V at odd ones.
pub open spec fn interleaved_px(src: Seq<u8>, w: int, h: int) -> spec_fn(int, int) -> u8 {
    |r: int, x: int|
        if x % 2 == 0 {
            src[w * h + r * (w / 2) + x / 2]
        } else {
            src[w * h + (w / 2) * (h / 2) + r * (w / 2) + x / 2]
        }
}

/// `dst` after a packed I420 frame was written to it as NV12.
pub open spec fn i420_as_nv12(dst: Seq<u8>, src: Seq<u8>, pitch: int, w: int, h: int) -> Seq<u8> {
    painted(
        plane_copied(dst, src, pitch, luma(w, h)),
        pitch * h,
        pitch,
        2 * (w / 2),
        h / 2,
        interleaved_px(src, w, h),
    )
}

/// The source holds an I420 frame, and the destination the NV12 planes made of it.
pub open spec fn i420_as_nv12_fits(src_len: int, dst_len: int, pitch: int, w: int, h: int) -> bool {
    &&& w * h + 2 * ((w / 2) * (h / 2)) <= src_len
    &&& plane_fits(src_len, dst_len, pitch, luma(w, h))
    &&& h / 2 > 0 && w / 2 > 0 ==> pitch * h + (h / 2 - 1) * pitch + 2 * (w / 2) <= dst_len
    &&& pitch * h <= usize::MAX
    &&& h / 2 > 0 ==> pitch * h + (h / 2 - 1) * pitch <= usize::MAX
}

/// Copies a packed I420 frame into an NV12 buffer, interleaving the chroma planes.
pub fn copy_i420_to_nv12(src: &[u8], dst: &mut [u8], pitch: usize, w: usize, h: usize)
    requires
        i420_as_nv12_fits(
            src@.len() as int,
            old(dst)@.len() as int,
            pitch as int,
            w as int,
            h as int,
        ),
    ensures
        final(dst)@ == i420_as_nv12(old(dst)@, src@, pitch as int, w as int, h as int),
        w <= pitch ==> holds_interleaved(
            final(dst)@,
            src@,
            pitch as int,
            w as int,
            h as int,
        ),
{
    let cw: usize = w / 2;
    let ch: usize = h / 2;
    proof {
        assert(src.len() == src@.len() && dst.len() == dst@.len());
        assert(w * h >= 0 && cw * ch >= 0 && pitch * h >= 0) by (nonlinear_arith);
    }
    copy_rows(src, 0, dst, 0, pitch, w, h);
    let u_plane: usize = w * h;
    let v_plane: usize = u_plane + cw * ch;
    let uv_base: usize = pitch * h;
    let ghost before = dst@;
    let ghost px = interleaved_px(src@, w as int, h as int);
    let ghost width = 2 * (w / 2) as int;
    assert(dst@ =~= painted(before, uv_base as int, pitch as int, width, 0, px));
    let mut row: usize = 0;
    while row < ch
        invariant
            row <= ch,
            cw == w / 2,
            ch == h / 2,
            u_plane == w * h,
            v_plane == u_plane + cw * ch,
            uv_base == pitch * h,
            width == 2 * (w / 2),
            v_plane + cw * ch <= src@.len(),
            dst@.len() == before.len(),
            ch > 0 && cw > 0 ==> uv_base + (ch - 1) * pitch + 2 * cw <= before.len(),
            ch > 0 ==> uv_base + (ch - 1) * pitch <= usize::MAX,
            px == interleaved_px(src@, w as int, h as int),
            dst@ == painted(before, uv_base as int, pitch as int, width, row as int, px),
        decreases ch - row,
    {
        proof {
            assert(0 <= row * pitch <= (ch - 1) * pitch) by (nonlinear_arith)
                requires
                    0 <= row <= ch - 1,
                    0 <= pitch,
            ;
            assert(0 <= row * cw && row * cw + cw <= cw * ch) by (nonlinear_arith)
                requires
                    0 <= row <= ch - 1,
                    0 <= cw,
            ;
        }
        let line: usize = uv_base + row * pitch;
        let ghost so_far = dst@;
        let ghost samples = |x: int| px(row as int, x);
        let mut column: usize = 0;
        assert(dst@ =~= row_set(so_far, line as int, 0, samples));
        while column < cw
            invariant
                column <= cw,
                row < ch,
                cw == w / 2,
                ch == h / 2,
                u_plane == w * h,
                v_plane == u_plane + cw * ch,
                v_plane + cw * ch <= src@.len(),
                0 <= row * cw,
                row * cw + cw <= cw * ch,
                line == uv_base + row * pitch,
                cw > 0 ==> line + 2 * cw <= dst@.len(),
                px == interleaved_px(src@, w as int, h as int),
                samples == |x: int| px(row as int, x),
                dst@ == row_set(so_far, line as int, 2 * column as int, samples),
            decreases cw - column,
        {
            assert(dst.len() == dst@.len());
            let at: usize = line + 2 * column;
            dst[at] = src[u_plane + (row * cw + column)];
            dst[at + 1] = src[v_plane + (row * cw + column)];
            proof {
                let x = 2 * column as int;
                assert(x / 2 == column && (x + 1) / 2 == column && x % 2 == 0 && (x + 1) % 2 == 1);
                assert(samples(x) == src@[u_plane + (row * cw + column)]);
                assert(samples(x + 1) == src@[v_plane + (row * cw + column)]);
                assert(dst@ =~= row_set(so_far, line as int, x + 2, samples));
            }
            column += 1;
        }
        proof {
            paint::lemma_paint_row(before, uv_base as int, pitch as int, width, row as int, px);
            assert(dst@ =~= painted(before, uv_base as int, pitch as int, width, row + 1, px));
        }
        row += 1;
    }
    proof {
        if w <= pitch {
            interleaved_frame_is_held(old(dst)@, src@, pitch as int, w as int, h as int);
        }
    }
}

} // verus!
