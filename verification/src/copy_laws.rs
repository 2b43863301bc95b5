//! What holds of copied frames as a whole: the copy can be read back plane by plane, and a
//! buffer allocated for a format always has room for its frames.
use crate::copy::{
    frame_planes, i420_as_nv12, i420_as_nv12_fits, interleaved_px, luma, plane_copied, plane_fits,
    plane_px, planes_copied, planes_fit, PlaneRect,
};
use crate::paint::{painted, painted_elsewhere, painted_pixel, rows_fit};
use crate::pixel_format::PixelFormat;
use vstd::prelude::*;

verus! {

/// The planes have rows no longer than the pitch, and each starts after the rows of the ones
/// before it.
pub open spec fn planes_stacked(pitch: int, planes: Seq<PlaneRect>) -> bool {
    &&& forall|i: int|
        0 <= i < planes.len() ==> {
            &&& 0 <= #[trigger] planes[i].width <= pitch
            &&& 0 <= planes[i].rows
            &&& 0 <= planes[i].base
        }
    &&& forall|i: int, j: int|
        0 <= i < j < planes.len() ==> #[trigger] planes[i].base + planes[i].rows * pitch
            <= #[trigger] planes[j].base
}

pub(crate) proof fn planes_copied_len(dst: Seq<u8>, src: Seq<u8>, pitch: int, planes: Seq<PlaneRect>)
    ensures
        planes_copied(dst, src, pitch, planes).len() == dst.len(),
    decreases planes.len(),
{
    if planes.len() > 0 {
        planes_copied_len(dst, src, pitch, planes.drop_last());
    }
}

/// Copied planes that do not overlap can be read back: byte `x` of row `r` of plane `i` is the
/// byte that the source has there.
pub proof fn copied_planes_read_back(
    dst: Seq<u8>,
    src: Seq<u8>,
    pitch: int,
    planes: Seq<PlaneRect>,
    i: int,
    r: int,
    x: int,
)
    requires
        planes_stacked(pitch, planes),
        planes_fit(src.len() as int, dst.len() as int, pitch, planes),
        0 <= i < planes.len(),
        0 <= r < planes[i].rows,
        0 <= x < planes[i].width,
    ensures
        planes_copied(dst, src, pitch, planes)[planes[i].base + r * pitch + x]
            == src[planes[i].from + r * planes[i].width + x],
    decreases planes.len(),
{
    let front = planes.drop_last();
    let last = planes.last();
    let before = planes_copied(dst, src, pitch, front);
    planes_copied_len(dst, src, pitch, front);
    let px = plane_px(src, last.from, last.width);
    if i == planes.len() - 1 {
        assert(plane_fits(src.len() as int, dst.len() as int, pitch, planes[i]));
        painted_pixel(before, last.base, pitch, last.width, last.rows, px, r, x);
    } else {
        let p = planes[i];
        assert(front[i] == p);
        assert forall|k: int| 0 <= k < front.len() implies plane_fits(
            src.len() as int,
            dst.len() as int,
            pitch,
            #[trigger] front[k],
        ) by {
            assert(front[k] == planes[k]);
        }
        assert(planes_stacked(pitch, front)) by {
            assert forall|k: int| 0 <= k < front.len() implies {
                &&& 0 <= #[trigger] front[k].width <= pitch
                &&& 0 <= front[k].rows
                &&& 0 <= front[k].base
            } by {
                assert(front[k] == planes[k]);
            }
            assert forall|k: int, l: int| 0 <= k < l < front.len() implies #[trigger] front[k].base
                + front[k].rows * pitch <= #[trigger] front[l].base by {
                assert(front[k] == planes[k] && front[l] == planes[l]);
            }
        }
        copied_planes_read_back(dst, src, pitch, front, i, r, x);
        let at = p.base + r * pitch + x;
        assert((r + 1) * pitch <= p.rows * pitch) by (nonlinear_arith)
            requires
                r + 1 <= p.rows,
                0 <= pitch,
        ;
        assert((r + 1) * pitch == r * pitch + pitch) by (nonlinear_arith);
        assert(0 <= r * pitch) by (nonlinear_arith)
            requires
                0 <= r,
                0 <= pitch,
        ;
        assert(planes[i].base + planes[i].rows * pitch <= planes[planes.len() - 1].base);
        assert(plane_fits(src.len() as int, dst.len() as int, pitch, p));
        assert(r * pitch <= (p.rows - 1) * pitch) by (nonlinear_arith)
            requires
                r <= p.rows - 1,
                0 <= pitch,
        ;
        painted_elsewhere(before, last.base, pitch, last.width, last.rows, px, at);
    }
}

/// The planes of every format are stacked, if the pitch is at least the length of a line.
pub proof fn frame_planes_stacked(format: PixelFormat, pitch: int, w: int, h: int)
    requires
        0 <= w,
        0 <= h,
        w * format.pixel_bytes() <= pitch,
    ensures
        planes_stacked(pitch, frame_planes(format, pitch, w, h)),
{
    let planes = frame_planes(format, pitch, w, h);
    assert(0 <= pitch * h && h * pitch == pitch * h) by (nonlinear_arith)
        requires
            0 <= pitch,
            0 <= h,
    ;
    let half = h / 2;
    assert(0 <= pitch * half && half * pitch == pitch * half) by (nonlinear_arith)
        requires
            0 <= pitch,
            0 <= half,
    ;
}

/// A copied frame can be read back, whatever its format.
pub proof fn copied_frame_reads_back(
    dst: Seq<u8>,
    src: Seq<u8>,
    pitch: int,
    w: int,
    h: int,
    format: PixelFormat,
    i: int,
    r: int,
    x: int,
)
    requires
        0 <= w,
        0 <= h,
        w * format.pixel_bytes() <= pitch,
        planes_fit(src.len() as int, dst.len() as int, pitch, frame_planes(format, pitch, w, h)),
        0 <= i < frame_planes(format, pitch, w, h).len(),
        0 <= r < frame_planes(format, pitch, w, h)[i].rows,
        0 <= x < frame_planes(format, pitch, w, h)[i].width,
    ensures
        ({
            let p = frame_planes(format, pitch, w, h)[i];
            planes_copied(dst, src, pitch, frame_planes(format, pitch, w, h))[p.base + r * pitch
                + x] == src[p.from + r * p.width + x]
        }),
{
    frame_planes_stacked(format, pitch, w, h);
    copied_planes_read_back(dst, src, pitch, frame_planes(format, pitch, w, h), i, r, x);
}

/// A buffer of `buffer_height` rows, each at least as long as a line, has room for every frame
/// of the right size: copying it never reaches outside the source or the destination.
pub proof fn allocated_buffer_holds_frame(
    format: PixelFormat,
    src_len: int,
    dst_len: int,
    pitch: int,
    w: int,
    h: int,
)
    requires
        0 <= w,
        0 <= h,
        w * format.pixel_bytes() <= pitch,
        src_len == format.spec_frame_size(w, h),
        dst_len >= pitch * format.spec_buffer_height(h),
    ensures
        planes_fit(src_len, dst_len, pitch, frame_planes(format, pitch, w, h)),
{
    let planes = frame_planes(format, pitch, w, h);
    let cw = w / 2;
    let ch = h / 2;
    let area = w * h;
    assert(area >= 0 && 4 * (cw * ch) <= area && 2 * (cw * h) <= area && 2 * (w * ch) <= area) by (
    nonlinear_arith)
        requires
            0 <= w,
            0 <= h,
            area == w * h,
            0 <= cw,
            0 <= ch,
            2 * cw <= w,
            2 * ch <= h,
    ;
    let rows = format.spec_buffer_height(h);
    assert(pitch * (h * 2) == 2 * (pitch * h)) by (nonlinear_arith);
    assert(pitch * (h * 3) == 3 * (pitch * h)) by (nonlinear_arith);
    assert(h * 3 / 2 == h + ch);
    assert(pitch * (h + ch) == pitch * h + pitch * ch) by (nonlinear_arith);
    assert((h - 1) * pitch == pitch * h - pitch) by (nonlinear_arith);
    assert((ch - 1) * pitch == pitch * ch - pitch) by (nonlinear_arith);
    assert(0 <= pitch * ch && 2 * (pitch * ch) <= pitch * h) by (nonlinear_arith)
        requires
            0 <= pitch,
            0 <= ch,
            2 * ch <= h,
    ;
    let b = format.pixel_bytes();
    assert((w * b) * h == (w * h) * b) by (nonlinear_arith);
    assert forall|i: int| 0 <= i < planes.len() implies plane_fits(
        src_len,
        dst_len,
        pitch,
        #[trigger] planes[i],
    ) by {
        assert(b == 1 ==> (w * h) * b == area);
        assert(b == 2 ==> (w * h) * b == 2 * area);
        assert(b == 3 ==> (w * h) * b == 3 * area);
        assert(b == 4 ==> (w * h) * b == 4 * area);
    }
}

/// The same for an I420 frame that is written to an NV12 buffer.
pub proof fn allocated_buffer_holds_interleaved_frame(
    src_len: int,
    dst_len: int,
    pitch: int,
    w: int,
    h: int,
)
    requires
        0 <= w <= pitch,
        0 <= h,
        src_len == PixelFormat::I420.spec_frame_size(w, h),
        dst_len >= pitch * PixelFormat::NV12.spec_buffer_height(h),
        dst_len <= usize::MAX,
    ensures
        i420_as_nv12_fits(src_len, dst_len, pitch, w, h),
{
    allocated_buffer_holds_frame(PixelFormat::NV12, src_len, dst_len, pitch, w, h);
    let planes = frame_planes(PixelFormat::NV12, pitch, w, h);
    assert(plane_fits(src_len, dst_len, pitch, planes[0]));
    assert(plane_fits(src_len, dst_len, pitch, planes[1]));
    let cw = w / 2;
    let ch = h / 2;
    assert(4 * (cw * ch) <= w * h) by (nonlinear_arith)
        requires
            0 <= w,
            0 <= h,
            0 <= cw,
            0 <= ch,
            2 * cw <= w,
            2 * ch <= h,
    ;
}

/// An I420 frame written as NV12 can be read back: lines of the first plane stay lines, and
/// the U and V samples of a position stand next to each other.
pub proof fn interleaved_frame_reads_back(
    dst: Seq<u8>,
    src: Seq<u8>,
    pitch: int,
    w: int,
    h: int,
    r: int,
    x: int,
)
    requires
        0 <= w <= pitch,
        0 <= h,
        i420_as_nv12_fits(src.len() as int, dst.len() as int, pitch, w, h),
        0 <= r,
        0 <= x,
    ensures
        r < h && x < w ==> i420_as_nv12(dst, src, pitch, w, h)[r * pitch + x] == src[r * w + x],
        r < h / 2 && x < w / 2 ==> i420_as_nv12(dst, src, pitch, w, h)[pitch * h + r * pitch + 2
            * x] == src[w * h + r * (w / 2) + x],
        r < h / 2 && x < w / 2 ==> i420_as_nv12(dst, src, pitch, w, h)[pitch * h + r * pitch + 2 * x
            + 1] == src[w * h + (w / 2) * (h / 2) + r * (w / 2) + x],
{
    let y = luma(w, h);
    let lumas = plane_copied(dst, src, pitch, y);
    let px = interleaved_px(src, w, h);
    let cw = w / 2;
    let ch = h / 2;
    assert(0 <= pitch * h && h * pitch == pitch * h) by (nonlinear_arith)
        requires
            0 <= pitch,
            0 <= h,
    ;
    if r < h && x < w {
        painted_pixel(dst, 0, pitch, w, h, plane_px(src, 0, w), r, x);
        assert((r + 1) * pitch <= h * pitch) by (nonlinear_arith)
            requires
                r + 1 <= h,
                0 <= pitch,
        ;
        assert((r + 1) * pitch == r * pitch + pitch) by (nonlinear_arith);
        painted_elsewhere(lumas, pitch * h, pitch, 2 * cw, ch, px, r * pitch + x);
    }
    if r < ch && x < cw {
        assert(rows_fit(lumas.len() as int, pitch * h, pitch, 2 * cw, ch)) by {
            assert((ch - 1) * pitch >= 0) by (nonlinear_arith)
                requires
                    ch - 1 >= 0,
                    pitch >= 0,
            ;
        }
        painted_pixel(lumas, pitch * h, pitch, 2 * cw, ch, px, r, 2 * x);
        painted_pixel(lumas, pitch * h, pitch, 2 * cw, ch, px, r, 2 * x + 1);
        assert((2 * x) % 2 == 0 && (2 * x) / 2 == x && (2 * x + 1) % 2 == 1 && (2 * x + 1) / 2
            == x);
    }
}

} // verus!
