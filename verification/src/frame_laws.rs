//! What copied frames hold, byte by byte.
use crate::copy::{
    byte_at, frame_planes, holds_frame, holds_interleaved, i420_as_nv12, i420_as_nv12_fits,
    i420_planes, i422_planes, i444_planes, interleaved_px, luma, nv12_planes, packed_planes,
    plane_copied, plane_px, planes_copied, planes_fit, same_rows, three_planes, PlaneRect,
};
use crate::copy_laws::{copied_planes_read_back, interleaved_frame_reads_back, planes_stacked};
use crate::paint::{painted_elsewhere, painted_row_wins};
use crate::pixel_format::PixelFormat;
use vstd::arithmetic::div_mod::lemma_mod_multiples_vanish;
use vstd::prelude::*;

verus! {

proof fn lemma_stacked(pitch: int, w: int, h: int, cw: int, ch: int)
    requires
        0 <= cw <= w <= pitch,
        0 <= ch <= h,
    ensures
        planes_stacked(pitch, three_planes(pitch, w, h, cw, ch)),
        planes_stacked(
            pitch,
            seq![luma(w, h), PlaneRect { from: w * h, base: pitch * h, width: w, rows: ch }],
        ),
        planes_stacked(pitch, seq![luma(w, h)]),
{
    assert(0 <= pitch * h && h * pitch == pitch * h && 0 <= pitch * ch && ch * pitch == pitch * ch)
        by (nonlinear_arith)
        requires
            0 <= pitch,
            0 <= h,
            0 <= ch,
    ;
}

proof fn lemma_three_planes(
    dst: Seq<u8>,
    src: Seq<u8>,
    pitch: int,
    w: int,
    h: int,
    cw: int,
    ch: int,
    r: int,
    x: int,
)
    requires
        0 <= cw <= w <= pitch,
        0 <= ch <= h,
        planes_fit(
            src.len() as int,
            dst.len() as int,
            pitch,
            three_planes(pitch, w, h, cw, ch),
        ),
        0 <= r,
        0 <= x,
    ensures
        ({
            let out = planes_copied(dst, src, pitch, three_planes(pitch, w, h, cw, ch));
            &&& r < h && x < w ==> out[r * pitch + x] == src[r * w + x]
            &&& r < ch && x < cw ==> out[pitch * h + r * pitch + x] == src[w * h + r * cw + x]
            &&& r < ch && x < cw ==> out[pitch * h + pitch * ch + r * pitch + x] == src[w * h + cw
                * ch + r * cw + x]
        }),
{
    let planes = three_planes(pitch, w, h, cw, ch);
    lemma_stacked(pitch, w, h, cw, ch);
    if r < h && x < w {
        copied_planes_read_back(dst, src, pitch, planes, 0, r, x);
    }
    if r < ch && x < cw {
        copied_planes_read_back(dst, src, pitch, planes, 1, r, x);
        copied_planes_read_back(dst, src, pitch, planes, 2, r, x);
    }
}

/// An I420 or YV12 frame of `w` times `h` pixels: the lines of the first plane come first, the
/// second plane of the source lies below them, halved in both directions, and the third one below
/// that. No plane is exchanged for another.
pub proof fn i420_frame_bytes(
    format: PixelFormat,
    dst: Seq<u8>,
    src: Seq<u8>,
    pitch: int,
    w: int,
    h: int,
    r: int,
    x: int,
)
    requires
        format == PixelFormat::I420 || format == PixelFormat::YV12,
        0 <= w <= pitch,
        0 <= h,
        planes_fit(src.len() as int, dst.len() as int, pitch, frame_planes(format, pitch, w, h)),
        0 <= r,
        0 <= x,
    ensures
        ({
            let out = planes_copied(dst, src, pitch, frame_planes(format, pitch, w, h));
            &&& r < h && x < w ==> out[r * pitch + x] == src[r * w + x]
            &&& r < h / 2 && x < w / 2 ==> out[pitch * h + r * pitch + x] == src[w * h + r * (w / 2)
                + x]
            &&& r < h / 2 && x < w / 2 ==> out[pitch * h + pitch * (h / 2) + r * pitch + x]
                == src[w * h + (w / 2) * (h / 2) + r * (w / 2) + x]
        }),
        planes_copied(dst, src, pitch, frame_planes(format, pitch, w, h)) == planes_copied(
            dst,
            src,
            pitch,
            i420_planes(pitch, w, h),
        ),
{
    lemma_three_planes(dst, src, pitch, w, h, w / 2, h / 2, r, x);
}

/// An I422 frame: two chroma planes of half the width lie below the first plane, in the order
/// of the source.
pub proof fn i422_frame_bytes(
    dst: Seq<u8>,
    src: Seq<u8>,
    pitch: int,
    w: int,
    h: int,
    r: int,
    x: int,
)
    requires
        0 <= w <= pitch,
        0 <= h,
        planes_fit(
            src.len() as int,
            dst.len() as int,
            pitch,
            frame_planes(PixelFormat::I422, pitch, w, h),
        ),
        0 <= r < h,
        0 <= x,
    ensures
        ({
            let out = planes_copied(
                dst,
                src,
                pitch,
                frame_planes(PixelFormat::I422, pitch, w, h),
            );
            &&& x < w ==> out[r * pitch + x] == src[r * w + x]
            &&& x < w / 2 ==> out[pitch * h + r * pitch + x] == src[w * h + r * (w / 2) + x]
            &&& x < w / 2 ==> out[pitch * h + pitch * h + r * pitch + x] == src[w * h + (w / 2) * h
                + r * (w / 2) + x]
        }),
        planes_copied(dst, src, pitch, frame_planes(PixelFormat::I422, pitch, w, h))
            == planes_copied(dst, src, pitch, i422_planes(pitch, w, h)),
{
    lemma_three_planes(dst, src, pitch, w, h, w / 2, h, r, x);
}

/// An I444 frame: three planes of full size lie below each other, in the order of the source.
pub proof fn i444_frame_bytes(
    dst: Seq<u8>,
    src: Seq<u8>,
    pitch: int,
    w: int,
    h: int,
    r: int,
    x: int,
)
    requires
        0 <= w <= pitch,
        0 <= h,
        planes_fit(
            src.len() as int,
            dst.len() as int,
            pitch,
            frame_planes(PixelFormat::I444, pitch, w, h),
        ),
        0 <= r < h,
        0 <= x < w,
    ensures
        ({
            let out = planes_copied(
                dst,
                src,
                pitch,
                frame_planes(PixelFormat::I444, pitch, w, h),
            );
            &&& out[r * pitch + x] == src[r * w + x]
            &&& out[pitch * h + r * pitch + x] == src[w * h + r * w + x]
            &&& out[pitch * h + pitch * h + r * pitch + x] == src[w * h + w * h + r * w + x]
        }),
        planes_copied(dst, src, pitch, frame_planes(PixelFormat::I444, pitch, w, h))
            == planes_copied(dst, src, pitch, i444_planes(pitch, w, h)),
{
    lemma_three_planes(dst, src, pitch, w, h, w, h, r, x);
}

/// An NV12 or NV21 frame: lines of interleaved chroma, as long as those of the first plane and
/// half as many, lie below it.
pub proof fn nv12_frame_bytes(
    format: PixelFormat,
    dst: Seq<u8>,
    src: Seq<u8>,
    pitch: int,
    w: int,
    h: int,
    r: int,
    x: int,
)
    requires
        format == PixelFormat::NV12 || format == PixelFormat::NV21,
        0 <= w <= pitch,
        0 <= h,
        planes_fit(src.len() as int, dst.len() as int, pitch, frame_planes(format, pitch, w, h)),
        0 <= r,
        0 <= x < w,
    ensures
        ({
            let out = planes_copied(dst, src, pitch, frame_planes(format, pitch, w, h));
            &&& r < h ==> out[r * pitch + x] == src[r * w + x]
            &&& r < h / 2 ==> out[pitch * h + r * pitch + x] == src[w * h + r * w + x]
        }),
        planes_copied(dst, src, pitch, frame_planes(format, pitch, w, h)) == planes_copied(
            dst,
            src,
            pitch,
            nv12_planes(pitch, w, h),
        ),
{
    let planes = nv12_planes(pitch, w, h);
    lemma_stacked(pitch, w, h, w, h / 2);
    if r < h {
        copied_planes_read_back(dst, src, pitch, planes, 0, r, x);
    }
    if r < h / 2 {
        copied_planes_read_back(dst, src, pitch, planes, 1, r, x);
    }
}

/// A packed frame: pixel after pixel and line after line, three bytes each for RGB, two for YUY2
/// and four for the others.
pub proof fn packed_frame_bytes(
    format: PixelFormat,
    dst: Seq<u8>,
    src: Seq<u8>,
    pitch: int,
    w: int,
    h: int,
    bytes: int,
    r: int,
    x: int,
)
    requires
        match format {
            PixelFormat::RGB => bytes == 3,
            PixelFormat::YUY2 => bytes == 2,
            PixelFormat::BGRA | PixelFormat::RGBA | PixelFormat::AYUV => bytes == 4,
            _ => false,
        },
        0 <= w,
        w * bytes <= pitch,
        0 <= h,
        planes_fit(src.len() as int, dst.len() as int, pitch, frame_planes(format, pitch, w, h)),
        0 <= r < h,
        0 <= x < w * bytes,
    ensures
        planes_copied(dst, src, pitch, frame_planes(format, pitch, w, h))[r * pitch + x] == src[r
            * (w * bytes) + x],
        planes_copied(dst, src, pitch, frame_planes(format, pitch, w, h)) == planes_copied(
            dst,
            src,
            pitch,
            packed_planes(w, h, bytes),
        ),
{
    lemma_stacked(pitch, w * bytes, h, 0, 0);
    copied_planes_read_back(dst, src, pitch, packed_planes(w, h, bytes), 0, r, x);
}

/// A single plane is copied line by line, whatever the pitch: where lines overlap, the later one
/// stays.
pub proof fn plane_bytes(dst: Seq<u8>, src: Seq<u8>, pitch: int, w: int, h: int, r: int, x: int)
    requires
        0 <= pitch,
        0 <= r < h,
        0 <= x < w,
        (h - 1) * pitch + w <= dst.len(),
        r == h - 1 || x < pitch,
    ensures
        plane_copied(dst, src, pitch, luma(w, h))[r * pitch + x] == src[r * w + x],
        plane_copied(dst, src, pitch, luma(w, h)).len() == dst.len(),
{
    painted_row_wins(dst, 0, pitch, w, h, plane_px(src, 0, w), r, x);
}

/// The planes of every format lie one after the other in the source, without gap or overlap, and
/// an even-sized frame holds nothing else.
pub proof fn source_planes_are_consecutive(
    format: PixelFormat,
    pitch: int,
    w: int,
    h: int,
    i: int,
)
    requires
        0 <= w,
        0 <= h,
    ensures
        ({
            let planes = frame_planes(format, pitch, w, h);
            let last = planes.last();
            &&& planes.len() > 0 && planes[0].from == 0 && planes[0].base == 0
            &&& 0 <= i < planes.len() - 1 ==> planes[i + 1].from == planes[i].from + planes[i].width
                * planes[i].rows
            &&& 0 <= i < planes.len() - 1 ==> planes[i + 1].base == planes[i].base + pitch
                * planes[i].rows
            &&& w % 2 == 0 && h % 2 == 0 ==> last.from + last.width * last.rows
                == format.spec_frame_size(w, h)
        }),
{
    let cw = w / 2;
    let ch = h / 2;
    if w % 2 == 0 && h % 2 == 0 {
        assert(w == 2 * cw && h == 2 * ch);
        assert(w * h == 4 * (cw * ch) && cw * h == 2 * (cw * ch) && w * ch == 2 * (cw * ch))
            by (nonlinear_arith)
            requires
                w == 2 * cw,
                h == 2 * ch,
        ;
        let b = format.pixel_bytes();
        assert((w * b) * h == (w * h) * b) by (nonlinear_arith);
        assert(b == 2 ==> (w * h) * b == 2 * (w * h));
        assert(b == 3 ==> (w * h) * b == 3 * (w * h));
        assert(b == 4 ==> (w * h) * b == 4 * (w * h));
    }
}

proof fn lemma_column(pitch: int, rows: int, k: int)
    requires
        pitch > 0,
    ensures
        (k - pitch * rows) % pitch == k % pitch,
{
    lemma_mod_multiples_vanish(-rows, k, pitch);
    assert(pitch * (-rows) + k == k - pitch * rows) by (nonlinear_arith);
}

proof fn lemma_padding_stays(
    dst: Seq<u8>,
    src: Seq<u8>,
    pitch: int,
    planes: Seq<PlaneRect>,
    k: int,
)
    requires
        planes_stacked(pitch, planes),
        0 <= k < dst.len(),
        forall|i: int|
            0 <= i < planes.len() ==> k < (#[trigger] planes[i]).base || k >= planes[i].base
                + planes[i].rows * pitch || (k - planes[i].base) % pitch >= planes[i].width,
    ensures
        planes_copied(dst, src, pitch, planes)[k] == dst[k],
        planes_copied(dst, src, pitch, planes).len() == dst.len(),
    decreases planes.len(),
{
    if planes.len() > 0 {
        let front = planes.drop_last();
        let last = planes.last();
        assert(planes_stacked(pitch, front)) by {
            assert forall|i: int| 0 <= i < front.len() implies {
                &&& 0 <= #[trigger] front[i].width <= pitch
                &&& 0 <= front[i].rows
                &&& 0 <= front[i].base
            } by {
                assert(front[i] == planes[i]);
            }
            assert forall|i: int, j: int| 0 <= i < j < front.len() implies #[trigger] front[i].base
                + front[i].rows * pitch <= #[trigger] front[j].base by {
                assert(front[i] == planes[i] && front[j] == planes[j]);
            }
        }
        assert forall|i: int| 0 <= i < front.len() implies k < (#[trigger] front[i]).base || k
            >= front[i].base + front[i].rows * pitch || (k - front[i].base) % pitch
            >= front[i].width by {
            assert(front[i] == planes[i]);
        }
        lemma_padding_stays(dst, src, pitch, front, k);
        assert(planes[planes.len() - 1] == last);
        painted_elsewhere(
            planes_copied(dst, src, pitch, front),
            last.base,
            pitch,
            last.width,
            last.rows,
            plane_px(src, last.from, last.width),
            k,
        );
    }
}

/// Copying a frame leaves the buffer outside the lines alone: what lies behind a line stays, and
/// so does what lies below the frame.
pub proof fn padding_stays(
    format: PixelFormat,
    dst: Seq<u8>,
    src: Seq<u8>,
    pitch: int,
    w: int,
    h: int,
    bytes: int,
    rows: int,
    k: int,
)
    requires
        match format {
            PixelFormat::RGB => bytes == 3 && rows == h,
            PixelFormat::YUY2 => bytes == 2 && rows == h,
            PixelFormat::BGRA | PixelFormat::RGBA | PixelFormat::AYUV => bytes == 4 && rows == h,
            PixelFormat::I420 | PixelFormat::YV12 => bytes == 1 && rows == h + h / 2 + h / 2,
            PixelFormat::NV12 | PixelFormat::NV21 => bytes == 1 && rows == h + h / 2,
            PixelFormat::I422 | PixelFormat::I444 => bytes == 1 && rows == 3 * h,
        },
        0 <= w,
        0 < pitch,
        w * bytes <= pitch,
        0 <= h,
        0 <= k < dst.len(),
        k % pitch >= w * bytes || k >= pitch * rows || (k >= pitch * h && k % pitch >= w / 2 && (
        format == PixelFormat::I420 || format == PixelFormat::YV12 || format == PixelFormat::I422)),
    ensures
        planes_copied(dst, src, pitch, frame_planes(format, pitch, w, h))[k] == dst[k],
        planes_copied(dst, src, pitch, frame_planes(format, pitch, w, h)).len() == dst.len(),
{
    let planes = frame_planes(format, pitch, w, h);
    let half = h / 2;
    crate::copy_laws::frame_planes_stacked(format, pitch, w, h);
    lemma_column(pitch, h, k);
    lemma_column(pitch, h + half, k);
    lemma_column(pitch, h + h, k);
    assert(pitch * (h + half) == pitch * h + pitch * half && pitch * (h + h) == pitch * h + pitch
        * h && pitch * (h + half + half) == pitch * h + pitch * half + pitch * half && pitch * (3
        * h) == pitch * h + pitch * h + pitch * h && h * pitch == pitch * h && half * pitch == pitch
        * half && 0 <= pitch * h && 0 <= pitch * half) by (nonlinear_arith)
        requires
            0 <= pitch,
            0 <= h,
            0 <= half,
    ;
    assert forall|i: int| 0 <= i < planes.len() implies k < (#[trigger] planes[i]).base || k
        >= planes[i].base + planes[i].rows * pitch || (k - planes[i].base) % pitch
        >= planes[i].width by {
    }
    lemma_padding_stays(dst, src, pitch, planes, k);
}

/// What frames and buffers measure. A pixel of an I420, NV12, NV21 or YV12 frame takes twelve
/// bits, of I422 and YUY2 sixteen, of I444 and RGB twenty-four, of the others thirty-two.
pub proof fn frame_sizes_follow_the_bits(format: PixelFormat, w: int, h: int, bits: int)
    requires
        match format {
            PixelFormat::I420 | PixelFormat::NV12 | PixelFormat::NV21 | PixelFormat::YV12 => bits
                == 12,
            PixelFormat::I422 | PixelFormat::YUY2 => bits == 16,
            PixelFormat::I444 | PixelFormat::RGB => bits == 24,
            PixelFormat::BGRA | PixelFormat::RGBA | PixelFormat::AYUV => bits == 32,
        },
        0 <= w,
        0 <= h,
    ensures
        8 * format.spec_frame_size(w, h) <= bits * (w * h) < 8 * format.spec_frame_size(w, h) + 8,
        format.spec_frame_size(w, h) <= format.frame_size_product(w, h),
{
    assert(w * h >= 0) by (nonlinear_arith)
        requires
            0 <= w,
            0 <= h,
    ;
    assert(bits == 12 ==> bits * (w * h) == 12 * (w * h));
    assert(bits == 16 ==> bits * (w * h) == 16 * (w * h));
    assert(bits == 24 ==> bits * (w * h) == 24 * (w * h));
    assert(bits == 32 ==> bits * (w * h) == 32 * (w * h));
}

/// A buffer has as many rows as its planes take below each other, for frames of even height,
/// each row of the first plane as long as the frame is wide; and it never has fewer.
pub proof fn buffer_rows_hold_the_planes(format: PixelFormat, pitch: int, w: int, h: int)
    requires
        0 <= w,
        0 <= h,
        0 <= pitch,
    ensures
        ({
            let planes = frame_planes(format, pitch, w, h);
            let last = planes.last();
            &&& planes[0].width == w * format.pixel_bytes()
            &&& planes[0].rows == h
            &&& last.base + pitch * last.rows <= pitch * format.spec_buffer_height(h)
            &&& h % 2 == 0 ==> last.base + pitch * last.rows == pitch * format.spec_buffer_height(h)
            &&& planes.len() == format.spec_num_planes()
        }),
{
    let half = h / 2;
    assert(h * 3 / 2 == h + half);
    assert(pitch * (h * 2) == pitch * h + pitch * h && pitch * (h * 3) == pitch * h + pitch * h
        + pitch * h && pitch * (h + half) == pitch * h + pitch * half && 2 * (pitch * half) <= pitch
        * h) by (nonlinear_arith)
        requires
            0 <= pitch,
            0 <= half,
            2 * half <= h,
    ;
    if h % 2 == 0 {
        assert(2 * (pitch * half) == pitch * h) by (nonlinear_arith)
            requires
                h == 2 * half,
        ;
    }
}

/// A plane that was copied into rows at least as long as its own is found there.
pub proof fn copied_plane_is_held(dst: Seq<u8>, src: Seq<u8>, pitch: int, w: int, h: int)
    requires
        0 <= w <= pitch,
        0 <= h,
        h > 0 ==> (h - 1) * pitch + w <= dst.len(),
    ensures
        same_rows(plane_copied(dst, src, pitch, luma(w, h)), 0, pitch, src, 0, w, h),
{
    let out = plane_copied(dst, src, pitch, luma(w, h));
    assert forall|r: int, x: int| 0 <= r < h && 0 <= x < w implies #[trigger] byte_at(
        out,
        0,
        pitch,
        r,
        x,
    ) == byte_at(src, 0, w, r, x) by {
        plane_bytes(dst, src, pitch, w, h, r, x);
    }
}

/// A frame that was copied into rows at least as long as its own is found there, plane by plane.
pub proof fn copied_frame_is_held(
    dst: Seq<u8>,
    src: Seq<u8>,
    pitch: int,
    w: int,
    h: int,
    format: PixelFormat,
)
    requires
        0 <= w,
        w * format.pixel_bytes() <= pitch,
        0 <= h,
        planes_fit(src.len() as int, dst.len() as int, pitch, frame_planes(format, pitch, w, h)),
    ensures
        holds_frame(
            planes_copied(dst, src, pitch, frame_planes(format, pitch, w, h)),
            src,
            pitch,
            w,
            h,
            format,
        ),
{
    let out = planes_copied(dst, src, pitch, frame_planes(format, pitch, w, h));
    let b = format.pixel_bytes();
    assert(b == 1 ==> w * b == w);
    match format {
        PixelFormat::I420 | PixelFormat::YV12 => {
            assert forall|r: int, x: int| 0 <= r < h && 0 <= x < w implies #[trigger] byte_at(
                out,
                0,
                pitch,
                r,
                x,
            ) == byte_at(src, 0, w, r, x) by {
                i420_frame_bytes(format, dst, src, pitch, w, h, r, x);
            }
            assert forall|r: int, x: int| 0 <= r < h / 2 && 0 <= x < w / 2 implies #[trigger] byte_at(
                out,
                pitch * h,
                pitch,
                r,
                x,
            ) == byte_at(src, w * h, w / 2, r, x) by {
                i420_frame_bytes(format, dst, src, pitch, w, h, r, x);
            }
            assert forall|r: int, x: int| 0 <= r < h / 2 && 0 <= x < w / 2 implies #[trigger] byte_at(
                out,
                pitch * h + pitch * (h / 2),
                pitch,
                r,
                x,
            ) == byte_at(src, w * h + (w / 2) * (h / 2), w / 2, r, x) by {
                i420_frame_bytes(format, dst, src, pitch, w, h, r, x);
            }
        },
        PixelFormat::I422 => {
            assert forall|r: int, x: int| 0 <= r < h && 0 <= x < w implies #[trigger] byte_at(
                out,
                0,
                pitch,
                r,
                x,
            ) == byte_at(src, 0, w, r, x) by {
                i422_frame_bytes(dst, src, pitch, w, h, r, x);
            }
            assert forall|r: int, x: int| 0 <= r < h && 0 <= x < w / 2 implies #[trigger] byte_at(
                out,
                pitch * h,
                pitch,
                r,
                x,
            ) == byte_at(src, w * h, w / 2, r, x) by {
                i422_frame_bytes(dst, src, pitch, w, h, r, x);
            }
            assert forall|r: int, x: int| 0 <= r < h && 0 <= x < w / 2 implies #[trigger] byte_at(
                out,
                pitch * h + pitch * h,
                pitch,
                r,
                x,
            ) == byte_at(src, w * h + (w / 2) * h, w / 2, r, x) by {
                i422_frame_bytes(dst, src, pitch, w, h, r, x);
            }
        },
        PixelFormat::I444 => {
            assert forall|r: int, x: int| 0 <= r < h && 0 <= x < w implies #[trigger] byte_at(
                out,
                0,
                pitch,
                r,
                x,
            ) == byte_at(src, 0, w, r, x) by {
                i444_frame_bytes(dst, src, pitch, w, h, r, x);
            }
            assert forall|r: int, x: int| 0 <= r < h && 0 <= x < w implies #[trigger] byte_at(
                out,
                pitch * h,
                pitch,
                r,
                x,
            ) == byte_at(src, w * h, w, r, x) by {
                i444_frame_bytes(dst, src, pitch, w, h, r, x);
            }
            assert forall|r: int, x: int| 0 <= r < h && 0 <= x < w implies #[trigger] byte_at(
                out,
                pitch * h + pitch * h,
                pitch,
                r,
                x,
            ) == byte_at(src, w * h + w * h, w, r, x) by {
                i444_frame_bytes(dst, src, pitch, w, h, r, x);
            }
        },
        PixelFormat::NV12 | PixelFormat::NV21 => {
            assert forall|r: int, x: int| 0 <= r < h && 0 <= x < w implies #[trigger] byte_at(
                out,
                0,
                pitch,
                r,
                x,
            ) == byte_at(src, 0, w, r, x) by {
                nv12_frame_bytes(format, dst, src, pitch, w, h, r, x);
            }
            assert forall|r: int, x: int| 0 <= r < h / 2 && 0 <= x < w implies #[trigger] byte_at(
                out,
                pitch * h,
                pitch,
                r,
                x,
            ) == byte_at(src, w * h, w, r, x) by {
                nv12_frame_bytes(format, dst, src, pitch, w, h, r, x);
            }
        },
        _ => {
            assert forall|r: int, x: int| 0 <= r < h && 0 <= x < w * b implies #[trigger] byte_at(
                out,
                0,
                pitch,
                r,
                x,
            ) == byte_at(src, 0, w * b, r, x) by {
                packed_frame_bytes(format, dst, src, pitch, w, h, b, r, x);
            }
        },
    }
}

/// An I420 frame that was interleaved into rows at least as long as its own is found there.
pub proof fn interleaved_frame_is_held(dst: Seq<u8>, src: Seq<u8>, pitch: int, w: int, h: int)
    requires
        0 <= w <= pitch,
        0 <= h,
        i420_as_nv12_fits(src.len() as int, dst.len() as int, pitch, w, h),
    ensures
        holds_interleaved(i420_as_nv12(dst, src, pitch, w, h), src, pitch, w, h),
{
    let out = i420_as_nv12(dst, src, pitch, w, h);
    assert forall|r: int, x: int| 0 <= r < h && 0 <= x < w implies #[trigger] byte_at(
        out,
        0,
        pitch,
        r,
        x,
    ) == byte_at(src, 0, w, r, x) by {
        interleaved_frame_reads_back(dst, src, pitch, w, h, r, x);
    }
    assert forall|r: int, x: int| 0 <= r < h / 2 && 0 <= x < w / 2 implies {
        &&& #[trigger] byte_at(out, pitch * h, pitch, r, 2 * x) == byte_at(src, w * h, w / 2, r, x)
        &&& byte_at(out, pitch * h, pitch, r, 2 * x + 1) == byte_at(
            src,
            w * h + (w / 2) * (h / 2),
            w / 2,
            r,
            x,
        )
    } by {
        interleaved_frame_reads_back(dst, src, pitch, w, h, r, x);
    }
}

/// Interleaving leaves the buffer outside the lines alone: what lies behind a line or pair of
/// samples stays, and so does what lies below the frame.
pub proof fn interleaving_leaves_padding(
    dst: Seq<u8>,
    src: Seq<u8>,
    pitch: int,
    w: int,
    h: int,
    k: int,
)
    requires
        0 <= w <= pitch,
        0 < pitch,
        0 <= h,
        0 <= k < dst.len(),
        k % pitch >= w || k >= pitch * (h + h / 2) || (k >= pitch * h && k % pitch >= 2 * (w / 2)),
    ensures
        i420_as_nv12(dst, src, pitch, w, h)[k] == dst[k],
        i420_as_nv12(dst, src, pitch, w, h).len() == dst.len(),
{
    let half = h / 2;
    let lumas = plane_copied(dst, src, pitch, luma(w, h));
    lemma_column(pitch, h, k);
    assert(pitch * (h + half) == pitch * h + pitch * half && h * pitch == pitch * h && half * pitch
        == pitch * half && 0 <= pitch * h && 0 <= pitch * half) by (nonlinear_arith)
        requires
            0 <= pitch,
            0 <= h,
            0 <= half,
    ;
    painted_elsewhere(dst, 0, pitch, w, h, plane_px(src, 0, w), k);
    painted_elsewhere(lumas, pitch * h, pitch, 2 * (w / 2), half, interleaved_px(src, w, h), k);
}

/// The last plane is copied last, so nothing is written over it even where lines are longer than
/// the pitch: the third plane of I420 and YV12 frames, and the chroma of NV12 and NV21 frames.
pub proof fn last_plane_is_copied_last(
    format: PixelFormat,
    dst: Seq<u8>,
    src: Seq<u8>,
    pitch: int,
    w: int,
    h: int,
    r: int,
    x: int,
)
    requires
        0 <= w,
        0 <= h,
        0 <= pitch,
        planes_fit(src.len() as int, dst.len() as int, pitch, frame_planes(format, pitch, w, h)),
        0 <= r < h / 2,
        0 <= x,
        r == h / 2 - 1 || x < pitch,
    ensures
        ({
            let out = planes_copied(dst, src, pitch, frame_planes(format, pitch, w, h));
            &&& (format == PixelFormat::I420 || format == PixelFormat::YV12) && x < w / 2
                ==> out[pitch * h + pitch * (h / 2) + r * pitch + x] == src[w * h + (w / 2) * (h
                / 2) + r * (w / 2) + x]
            &&& (format == PixelFormat::NV12 || format == PixelFormat::NV21) && x < w ==> out[pitch
                * h + r * pitch + x] == src[w * h + r * w + x]
        }),
{
    let planes = frame_planes(format, pitch, w, h);
    let last = planes.last();
    let before = planes_copied(dst, src, pitch, planes.drop_last());
    crate::copy_laws::planes_copied_len(dst, src, pitch, planes.drop_last());
    assert(0 <= pitch * h && 0 <= pitch * (h / 2)) by (nonlinear_arith)
        requires
            0 <= pitch,
            0 <= h,
    ;
    let chroma = match format {
        PixelFormat::I420 | PixelFormat::YV12 | PixelFormat::NV12 | PixelFormat::NV21 => true,
        _ => false,
    };
    if chroma && x < last.width {
        assert(crate::copy::plane_fits(
            src.len() as int,
            dst.len() as int,
            pitch,
            planes[planes.len() - 1],
        ));
        painted_row_wins(
            before,
            last.base,
            pitch,
            last.width,
            last.rows,
            plane_px(src, last.from, last.width),
            r,
            x,
        );
    }
}

} // verus!
