//! Writing frames into scan-out buffers whose format may differ from theirs.
use crate::copy::{
    copy_frame, copy_i420_to_nv12, frame_planes, holds_frame, holds_interleaved, i420_as_nv12,
    i420_as_nv12_fits, luma, plane_fits, planes_copied, planes_fit, PlaneRect,
};
use crate::copy_laws::{allocated_buffer_holds_frame, allocated_buffer_holds_interleaved_frame};
use crate::pixel_format::PixelFormat;
use vstd::prelude::*;

verus! {

/// How frames get into a buffer.
#[derive(Clone, Copy, PartialEq, Eq, Structural, Debug)]
pub enum Conversion {
    /// Byte by byte.
    Copy,
    /// From I420 to NV12.
    Interleave,
}

/// The conversion between the two formats, if there is one.
pub open spec fn spec_conversion(format: PixelFormat, fb_format: PixelFormat) -> Option<
    Conversion,
> {
    if format == fb_format {
        Some(Conversion::Copy)
    } else if format == PixelFormat::I420 && fb_format == PixelFormat::NV12 {
        Some(Conversion::Interleave)
    } else {
        None
    }
}

pub fn conversion(format: PixelFormat, fb_format: PixelFormat) -> (r: Option<Conversion>)
    ensures
        r == spec_conversion(format, fb_format),
{
    if format == fb_format {
        Some(Conversion::Copy)
    } else if format == PixelFormat::I420 && fb_format == PixelFormat::NV12 {
        Some(Conversion::Interleave)
    } else {
        None
    }
}

/// `dst` after a frame of the given format was written to it.
pub open spec fn frame_written(
    dst: Seq<u8>,
    src: Seq<u8>,
    pitch: int,
    w: int,
    h: int,
    format: PixelFormat,
    how: Conversion,
) -> Seq<u8> {
    match how {
        Conversion::Copy => planes_copied(dst, src, pitch, frame_planes(format, pitch, w, h)),
        Conversion::Interleave => i420_as_nv12(dst, src, pitch, w, h),
    }
}

/// The frame and the buffer are large enough.
pub open spec fn conversion_fits(
    src_len: int,
    dst_len: int,
    pitch: int,
    w: int,
    h: int,
    format: PixelFormat,
    how: Conversion,
) -> bool {
    match how {
        Conversion::Copy => w * format.pixel_bytes() <= usize::MAX && planes_fit(
            src_len,
            dst_len,
            pitch,
            frame_planes(format, pitch, w, h),
        ),
        Conversion::Interleave => i420_as_nv12_fits(src_len, dst_len, pitch, w, h),
    }
}

fn plane_is_inside(
    src_len: usize,
    dst_len: usize,
    pitch: usize,
    from: u128,
    base: u128,
    width: u128,
    rows: u128,
) -> (r: bool)
    requires
        from <= 0x1_0000_0000_0000_0000_0000,
        base <= 0x1_0000_0000_0000_0000_0000_0000_0000,
        width <= 0x100_0000_0000,
        rows <= 0x1_0000_0000,
    ensures
        r == plane_fits(
            src_len as int,
            dst_len as int,
            pitch as int,
            (PlaneRect {
                from: from as int,
                base: base as int,
                width: width as int,
                rows: rows as int,
            }),
        ),
{
    assert(0 <= width * rows <= 0x100_0000_0000 * 0x1_0000_0000) by (nonlinear_arith)
        requires
            0 <= width <= 0x100_0000_0000,
            0 <= rows <= 0x1_0000_0000,
    ;
    if from + width * rows > src_len as u128 || base > dst_len as u128 {
        return false;
    }
    if rows == 0 {
        return true;
    }
    let gaps: u128 = rows - 1;
    assert(0 <= gaps * pitch <= 0x1_0000_0000 * 0x1_0000_0000_0000_0000) by (nonlinear_arith)
        requires
            0 <= gaps <= 0x1_0000_0000,
            0 <= pitch <= 0x1_0000_0000_0000_0000,
    ;
    base + gaps * (pitch as u128) + width <= dst_len as u128
}

/// Sizes and offsets within a frame stay far below what a `u128` holds.
proof fn lemma_offsets_are_bounded(pitch: usize, w: u32, h: u32)
    ensures
        0 <= w * h <= 0x1_0000_0000_0000_0000,
        0 <= pitch * h <= 0x1_0000_0000_0000_0000_0000_0000,
        0 <= (w / 2) * (h / 2) <= w * h,
        0 <= (w / 2) * h <= w * h,
        0 <= pitch * (h / 2) <= pitch * h,
{
    assert(pitch <= 0xffff_ffff_ffff_ffff);
    assert(0 <= w * h <= 0x1_0000_0000_0000_0000) by (nonlinear_arith)
        requires
            0 <= w <= 0x1_0000_0000,
            0 <= h <= 0x1_0000_0000,
    ;
    assert(0 <= pitch * h <= 0x1_0000_0000_0000_0000_0000_0000) by (nonlinear_arith)
        requires
            0 <= pitch <= 0x1_0000_0000_0000_0000,
            0 <= h <= 0x1_0000_0000,
    ;
    let cw = (w / 2) as int;
    let ch = (h / 2) as int;
    assert(0 <= cw * ch <= w * h && 0 <= cw * h <= w * h && 0 <= pitch * ch <= pitch * h)
        by (nonlinear_arith)
        requires
            0 <= cw <= w,
            0 <= ch <= h,
            0 <= pitch,
    ;
}

/// Whether three planes below each other fit, the second and third of `cw` times `ch` bytes.
fn three_planes_fit(
    src_len: usize,
    dst_len: usize,
    pitch: usize,
    w: u32,
    h: u32,
    cw: u32,
    ch: u32,
) -> (r: bool)
    requires
        cw <= w,
        ch <= h,
    ensures
        r == planes_fit(
            src_len as int,
            dst_len as int,
            pitch as int,
            crate::copy::three_planes(pitch as int, w as int, h as int, cw as int, ch as int),
        ),
{
    let ghost planes = crate::copy::three_planes(
        pitch as int,
        w as int,
        h as int,
        cw as int,
        ch as int,
    );
    proof {
        lemma_offsets_are_bounded(pitch, w, h);
        assert(0 <= cw * ch <= w * h && 0 <= pitch * ch <= pitch * h) by (nonlinear_arith)
            requires
                0 <= cw <= w,
                0 <= ch <= h,
                0 <= pitch,
        ;
        assert(planes[0] == luma(w as int, h as int));
    }
    let p: u128 = pitch as u128;
    let area: u128 = w as u128 * h as u128;
    let chroma: u128 = cw as u128 * ch as u128;
    let below: u128 = p * h as u128;
    let last: u128 = below + p * ch as u128;
    let first_fits = plane_is_inside(src_len, dst_len, pitch, 0, 0, w as u128, h as u128);
    let second_fits = plane_is_inside(
        src_len,
        dst_len,
        pitch,
        area,
        below,
        cw as u128,
        ch as u128,
    );
    let third_fits = plane_is_inside(
        src_len,
        dst_len,
        pitch,
        area + chroma,
        last,
        cw as u128,
        ch as u128,
    );
    let r = first_fits && second_fits && third_fits;
    proof {
        let s = src_len as int;
        let d = dst_len as int;
        assert(plane_fits(s, d, pitch as int, planes[0]) == first_fits);
        assert(plane_fits(s, d, pitch as int, planes[1]) == second_fits);
        assert(plane_fits(s, d, pitch as int, planes[2]) == third_fits);
    }
    r
}

fn two_planes_fit(src_len: usize, dst_len: usize, pitch: usize, w: u32, h: u32) -> (r: bool)
    ensures
        r == planes_fit(
            src_len as int,
            dst_len as int,
            pitch as int,
            crate::copy::nv12_planes(pitch as int, w as int, h as int),
        ),
{
    let ghost planes = crate::copy::nv12_planes(pitch as int, w as int, h as int);
    proof {
        lemma_offsets_are_bounded(pitch, w, h);
    }
    let area: u128 = w as u128 * h as u128;
    let below: u128 = pitch as u128 * h as u128;
    let ch: u32 = h / 2;
    let first_fits = plane_is_inside(src_len, dst_len, pitch, 0, 0, w as u128, h as u128);
    let second_fits = plane_is_inside(
        src_len,
        dst_len,
        pitch,
        area,
        below,
        w as u128,
        ch as u128,
    );
    proof {
        let s = src_len as int;
        let d = dst_len as int;
        assert(plane_fits(s, d, pitch as int, planes[0]) == first_fits);
        assert(plane_fits(s, d, pitch as int, planes[1]) == second_fits);
    }
    first_fits && second_fits
}

fn packed_plane_fits(
    src_len: usize,
    dst_len: usize,
    pitch: usize,
    w: u32,
    h: u32,
    bytes_per_pixel: u32,
) -> (r: bool)
    requires
        bytes_per_pixel <= 4,
    ensures
        r == planes_fit(
            src_len as int,
            dst_len as int,
            pitch as int,
            crate::copy::packed_planes(w as int, h as int, bytes_per_pixel as int),
        ),
{
    let ghost planes = crate::copy::packed_planes(w as int, h as int, bytes_per_pixel as int);
    assert(0 <= w * bytes_per_pixel <= 0x100_0000_0000) by (nonlinear_arith)
        requires
            0 <= w <= 0x1_0000_0000,
            0 <= bytes_per_pixel <= 4,
    ;
    let row: u128 = w as u128 * bytes_per_pixel as u128;
    let fits = plane_is_inside(src_len, dst_len, pitch, 0, 0, row, h as u128);
    proof {
        assert(plane_fits(src_len as int, dst_len as int, pitch as int, planes[0]) == fits);
    }
    fits
}

fn interleaved_planes_fit(src_len: usize, dst_len: usize, pitch: usize, w: u32, h: u32) -> (r: bool)
    ensures
        r == i420_as_nv12_fits(
            src_len as int,
            dst_len as int,
            pitch as int,
            w as int,
            h as int,
        ),
{
    proof {
        lemma_offsets_are_bounded(pitch, w, h);
    }
    let p: u128 = pitch as u128;
    let cw: u128 = (w / 2) as u128;
    let ch: u128 = (h / 2) as u128;
    let below: u128 = p * h as u128;
    let max: u128 = usize::MAX as u128;
    if w as u128 * h as u128 + 2 * (cw * ch) > src_len as u128 || below > max {
        return false;
    }
    if !plane_is_inside(src_len, dst_len, pitch, 0, 0, w as u128, h as u128) {
        return false;
    }
    if ch == 0 {
        return true;
    }
    let gaps: u128 = ch - 1;
    assert(0 <= gaps * p <= 0x1_0000_0000 * 0x1_0000_0000_0000_0000) by (nonlinear_arith)
        requires
            0 <= gaps <= 0x1_0000_0000,
            0 <= p <= 0x1_0000_0000_0000_0000,
    ;
    let last: u128 = below + gaps * p;
    last <= max && (cw == 0 || last + 2 * cw <= dst_len as u128)
}

/// Whether the frame can be written into a buffer of `dst_len` bytes.
pub fn frame_fits(
    src_len: usize,
    dst_len: usize,
    pitch: usize,
    w: u32,
    h: u32,
    format: PixelFormat,
    how: Conversion,
) -> (r: bool)
    ensures
        r == conversion_fits(
            src_len as int,
            dst_len as int,
            pitch as int,
            w as int,
            h as int,
            format,
            how,
        ),
{
    match how {
        Conversion::Interleave => interleaved_planes_fit(src_len, dst_len, pitch, w, h),
        Conversion::Copy => {
            let bytes_per_pixel: u32 = format.bpp() / 8;
            assert(bytes_per_pixel == format.pixel_bytes() && bytes_per_pixel <= 4);
            assert(0 <= w * bytes_per_pixel <= 0x100_0000_0000) by (nonlinear_arith)
                requires
                    0 <= w <= 0x1_0000_0000,
                    0 <= bytes_per_pixel <= 4,
            ;
            if w as u128 * bytes_per_pixel as u128 > usize::MAX as u128 {
                return false;
            }
            match format {
                PixelFormat::I420 | PixelFormat::YV12 => three_planes_fit(
                    src_len,
                    dst_len,
                    pitch,
                    w,
                    h,
                    w / 2,
                    h / 2,
                ),
                PixelFormat::I422 => three_planes_fit(src_len, dst_len, pitch, w, h, w / 2, h),
                PixelFormat::I444 => three_planes_fit(src_len, dst_len, pitch, w, h, w, h),
                PixelFormat::NV12 | PixelFormat::NV21 => two_planes_fit(
                    src_len,
                    dst_len,
                    pitch,
                    w,
                    h,
                ),
                _ => packed_plane_fits(src_len, dst_len, pitch, w, h, bytes_per_pixel),
            }
        },
    }
}

/// Writes a packed frame into a mapped buffer.
pub fn write_frame(
    frame: &[u8],
    mapping: &mut [u8],
    pitch: usize,
    w: u32,
    h: u32,
    format: PixelFormat,
    how: Conversion,
)
    requires
        conversion_fits(
            frame@.len() as int,
            old(mapping)@.len() as int,
            pitch as int,
            w as int,
            h as int,
            format,
            how,
        ),
    ensures
        final(mapping)@ == frame_written(
            old(mapping)@,
            frame@,
            pitch as int,
            w as int,
            h as int,
            format,
            how,
        ),
        how == Conversion::Copy && w * format.pixel_bytes() <= pitch ==> holds_frame(
            final(mapping)@,
            frame@,
            pitch as int,
            w as int,
            h as int,
            format,
        ),
        how == Conversion::Interleave && w <= pitch ==> holds_interleaved(
            final(mapping)@,
            frame@,
            pitch as int,
            w as int,
            h as int,
        ),
{
    match how {
        Conversion::Copy => copy_frame(frame, mapping, pitch, w as usize, h as usize, format),
        Conversion::Interleave => copy_i420_to_nv12(
            frame,
            mapping,
            pitch,
            w as usize,
            h as usize,
        ),
    }
}

/// Frames of every format can be written into buffers of the format that they are scanned out
/// in, and into buffers of their own.
pub proof fn scanout_conversion_exists(format: PixelFormat)
    ensures
        spec_conversion(format, format) == Some(Conversion::Copy),
        spec_conversion(format, format.spec_fb_format()) is Some,
{
}

/// A buffer that was allocated for the scan-out format has room for every frame of the right
/// size.
pub proof fn allocated_buffer_has_room(
    format: PixelFormat,
    fb_format: PixelFormat,
    how: Conversion,
    dst_len: int,
    pitch: int,
    w: int,
    h: int,
)
    requires
        spec_conversion(format, fb_format) == Some(how),
        0 <= w,
        0 <= h,
        w * fb_format.pixel_bytes() <= pitch,
        pitch * fb_format.spec_buffer_height(h) <= dst_len,
        pitch <= usize::MAX,
        dst_len <= usize::MAX,
    ensures
        conversion_fits(format.spec_frame_size(w, h), dst_len, pitch, w, h, format, how),
{
    match how {
        Conversion::Copy => allocated_buffer_holds_frame(
            format,
            format.spec_frame_size(w, h),
            dst_len,
            pitch,
            w,
            h,
        ),
        Conversion::Interleave => allocated_buffer_holds_interleaved_frame(
            format.spec_frame_size(w, h),
            dst_len,
            pitch,
            w,
            h,
        ),
    }
}

/// Frames are copied into buffers of their own format and interleaved from I420 into NV12; there
/// is no other conversion.
pub proof fn conversions_that_exist(format: PixelFormat, fb_format: PixelFormat)
    ensures
        spec_conversion(format, fb_format) == Some(Conversion::Copy) <==> format == fb_format,
        spec_conversion(format, fb_format) == Some(Conversion::Interleave) <==> format
            == PixelFormat::I420 && fb_format == PixelFormat::NV12,
        spec_conversion(format, fb_format) is None <==> format != fb_format && !(format
            == PixelFormat::I420 && fb_format == PixelFormat::NV12),
{
}

/// A frame that was written by copying holds its planes; one that was interleaved holds the lines
/// of the first plane, and below them U and V samples in turn.
pub proof fn written_frames_hold_their_samples(
    dst: Seq<u8>,
    src: Seq<u8>,
    pitch: int,
    w: int,
    h: int,
    format: PixelFormat,
    how: Conversion,
    r: int,
    x: int,
)
    requires
        0 <= w,
        w * format.pixel_bytes() <= pitch,
        0 <= h,
        format == PixelFormat::I420 || how == Conversion::Copy,
        conversion_fits(src.len() as int, dst.len() as int, pitch, w, h, format, how),
        0 <= r,
        0 <= x,
    ensures
        ({
            let out = frame_written(dst, src, pitch, w, h, format, how);
            let bytes = w * format.pixel_bytes();
            &&& r < h && x < bytes ==> out[r * pitch + x] == src[r * bytes + x]
            &&& how == Conversion::Copy ==> out == planes_copied(
                dst,
                src,
                pitch,
                frame_planes(format, pitch, w, h),
            )
            &&& how == Conversion::Interleave && r < h / 2 && x < w / 2 ==> {
                &&& out[pitch * h + r * pitch + 2 * x] == src[w * h + r * (w / 2) + x]
                &&& out[pitch * h + r * pitch + 2 * x + 1] == src[w * h + (w / 2) * (h / 2) + r * (w
                    / 2) + x]
            }
        }),
{
    let b = format.pixel_bytes();
    assert(b == 1 ==> w * b == w);
    match how {
        Conversion::Copy => {
            if r < h && x < w * format.pixel_bytes() {
                crate::copy_laws::copied_frame_reads_back(dst, src, pitch, w, h, format, 0, r, x);
            }
        },
        Conversion::Interleave => {
            crate::copy_laws::interleaved_frame_reads_back(dst, src, pitch, w, h, r, x);
        },
    }
}

/// A frame of three planes can be copied exactly where the source holds all of them and the last
/// row of the first and of the third plane ends inside the buffer.
pub proof fn three_planes_fit_exactly(
    src_len: int,
    dst_len: int,
    pitch: int,
    w: int,
    h: int,
    format: PixelFormat,
    cw: int,
    ch: int,
)
    requires
        match format {
            PixelFormat::I420 | PixelFormat::YV12 => cw == w / 2 && ch == h / 2,
            PixelFormat::I422 => cw == w / 2 && ch == h,
            PixelFormat::I444 => cw == w && ch == h,
            _ => false,
        },
        0 <= w <= usize::MAX,
        0 <= h,
        0 <= pitch,
        0 <= src_len,
        0 <= dst_len,
    ensures
        conversion_fits(src_len, dst_len, pitch, w, h, format, Conversion::Copy) <==> {
            &&& w * h + cw * ch + cw * ch <= src_len
            &&& h > 0 ==> (h - 1) * pitch + w <= dst_len
            &&& pitch * h + pitch * ch <= dst_len
            &&& ch > 0 ==> pitch * h + pitch * ch + (ch - 1) * pitch + cw <= dst_len
        },
{
    let planes = frame_planes(format, pitch, w, h);
    assert(0 <= cw * ch && 0 <= pitch * ch && 0 <= w * h && 0 <= pitch * h) by (nonlinear_arith)
        requires
            0 <= cw,
            0 <= ch,
            0 <= pitch,
            0 <= w,
            0 <= h,
    ;
    let fits = |i: int| plane_fits(src_len, dst_len, pitch, planes[i]);
    assert(planes_fit(src_len, dst_len, pitch, planes) <==> fits(0) && fits(1) && fits(2)) by {
        assert(planes.len() == 3);
        if planes_fit(src_len, dst_len, pitch, planes) {
            assert(plane_fits(src_len, dst_len, pitch, planes[0]));
            assert(plane_fits(src_len, dst_len, pitch, planes[1]));
            assert(plane_fits(src_len, dst_len, pitch, planes[2]));
        }
    }
}

/// A frame with interleaved chroma can be copied exactly where the source holds both planes and
/// the last row of each ends inside the buffer.
pub proof fn two_planes_fit_exactly(
    src_len: int,
    dst_len: int,
    pitch: int,
    w: int,
    h: int,
    format: PixelFormat,
)
    requires
        format == PixelFormat::NV12 || format == PixelFormat::NV21,
        0 <= w <= usize::MAX,
        0 <= h,
        0 <= pitch,
        0 <= src_len,
        0 <= dst_len,
    ensures
        conversion_fits(src_len, dst_len, pitch, w, h, format, Conversion::Copy) <==> {
            &&& w * h + w * (h / 2) <= src_len
            &&& h > 0 ==> (h - 1) * pitch + w <= dst_len
            &&& pitch * h <= dst_len
            &&& h / 2 > 0 ==> pitch * h + (h / 2 - 1) * pitch + w <= dst_len
        },
{
    let planes = frame_planes(format, pitch, w, h);
    assert(0 <= w * (h / 2) && 0 <= pitch * h) by (nonlinear_arith)
        requires
            0 <= h,
            0 <= pitch,
            0 <= w,
    ;
    let fits = |i: int| plane_fits(src_len, dst_len, pitch, planes[i]);
    assert(planes_fit(src_len, dst_len, pitch, planes) <==> fits(0) && fits(1)) by {
        assert(planes.len() == 2);
        if planes_fit(src_len, dst_len, pitch, planes) {
            assert(plane_fits(src_len, dst_len, pitch, planes[0]));
            assert(plane_fits(src_len, dst_len, pitch, planes[1]));
        }
    }
}

/// A packed frame can be copied exactly where the source holds it and the last row ends inside
/// the buffer.
pub proof fn packed_planes_fit_exactly(
    src_len: int,
    dst_len: int,
    pitch: int,
    w: int,
    h: int,
    format: PixelFormat,
    bytes: int,
)
    requires
        match format {
            PixelFormat::RGB => bytes == 3,
            PixelFormat::YUY2 => bytes == 2,
            PixelFormat::BGRA | PixelFormat::RGBA | PixelFormat::AYUV => bytes == 4,
            _ => false,
        },
        0 <= w,
        w * bytes <= usize::MAX,
        0 <= h,
        0 <= src_len,
        0 <= dst_len,
    ensures
        conversion_fits(src_len, dst_len, pitch, w, h, format, Conversion::Copy) <==> {
            &&& w * bytes * h <= src_len
            &&& h > 0 ==> (h - 1) * pitch + w * bytes <= dst_len
        },
{
    let planes = frame_planes(format, pitch, w, h);
    let fits = |i: int| plane_fits(src_len, dst_len, pitch, planes[i]);
    assert(planes_fit(src_len, dst_len, pitch, planes) <==> fits(0)) by {
        assert(planes.len() == 1);
        if planes_fit(src_len, dst_len, pitch, planes) {
            assert(plane_fits(src_len, dst_len, pitch, planes[0]));
        }
    }
}

/// An I420 frame can be interleaved exactly where the source holds its three planes, the rows of
/// the first plane and those of sample pairs end inside the buffer, and the places where rows
/// start can be counted.
pub proof fn interleaved_planes_fit_exactly(
    src_len: int,
    dst_len: int,
    pitch: int,
    w: int,
    h: int,
    format: PixelFormat,
)
    requires
        0 <= w,
        0 <= h,
        0 <= pitch,
        0 <= src_len <= usize::MAX,
        0 <= dst_len <= usize::MAX,
    ensures
        conversion_fits(src_len, dst_len, pitch, w, h, format, Conversion::Interleave) <==> {
            &&& w * h + (w / 2) * (h / 2) + (w / 2) * (h / 2) <= src_len
            &&& h > 0 ==> (h - 1) * pitch + w <= dst_len
            &&& h > 1 && w > 1 ==> pitch * h + (h / 2 - 1) * pitch + 2 * (w / 2) <= dst_len
            &&& pitch * h <= usize::MAX
            &&& h > 1 ==> pitch * h + (h / 2 - 1) * pitch <= usize::MAX
        },
{
    assert(0 <= (w / 2) * (h / 2)) by (nonlinear_arith)
        requires
            0 <= w,
            0 <= h,
    ;
}

} // verus!
