//! Scan-out buffers in plain memory: how they are allocated, cleared and described.
use crate::copy::{byte_at, copy_frame, frame_planes, planes_copied, planes_fit};
use crate::copy_laws::copied_frame_reads_back;
use crate::pixel_format::PixelFormat;
use vstd::prelude::*;

verus! {

/// Layout modifier of the Raspberry Pi's 128-byte column format.
pub const DRM_FORMAT_MOD_BROADCOM_SAND128: u64 = 0x0700_0000_0000_0004;

/// The modifier that raw frames are scanned out with, if any.
pub open spec fn spec_raw_modifier(rpi: bool, is_vc4: bool) -> Option<u64> {
    if rpi && is_vc4 {
        Some(DRM_FORMAT_MOD_BROADCOM_SAND128)
    } else {
        None
    }
}

/// The modifier that raw frames are scanned out with: the column format where the build is for
/// the Raspberry Pi and the card is driven by vc4, none otherwise.
pub fn raw_modifier(rpi: bool, is_vc4: bool) -> (r: Option<u64>)
    ensures
        r == (if rpi && is_vc4 {
            Some(DRM_FORMAT_MOD_BROADCOM_SAND128)
        } else {
            None
        }),
        r == spec_raw_modifier(rpi, is_vc4),
{
    if rpi && is_vc4 {
        Some(DRM_FORMAT_MOD_BROADCOM_SAND128)
    } else {
        None
    }
}

/// What to ask of the card for a frame: columns, rows, code and bits per pixel.
#[derive(Clone, Copy, PartialEq, Eq, Structural, Debug)]
pub struct DumbRequest {
    pub width: u32,
    pub rows: u32,
    pub fourcc: u32,
    pub bpp: u32,
}

/// The buffer to allocate for frames of `w` times `h` pixels.
pub fn dumb_request(w: u32, h: u32, format: PixelFormat) -> (r: DumbRequest)
    requires
        h * format.height_factor() <= u32::MAX,
    ensures
        r.width == w,
        r.rows == format.spec_buffer_height(h as int),
        r.fourcc == format.spec_fourcc(),
        r.bpp == 8 * format.pixel_bytes(),
{
    DumbRequest {
        width: w,
        rows: format.buffer_height(h),
        fourcc: format.fourcc(),
        bpp: format.bpp(),
    }
}

/// `dst` after an all-zero frame was copied into it.
pub open spec fn frame_cleared(
    dst: Seq<u8>,
    pitch: int,
    w: int,
    h: int,
    format: PixelFormat,
) -> Seq<u8> {
    planes_copied(
        dst,
        Seq::new(format.spec_frame_size(w, h) as nat, |i: int| 0u8),
        pitch,
        frame_planes(format, pitch, w, h),
    )
}

/// Zeroes the pixels of a mapped buffer, leaving bytes outside the planes alone.
pub fn clear_frame(mapping: &mut [u8], pitch: usize, w: u32, h: u32, format: PixelFormat)
    requires
        w * format.pixel_bytes() <= usize::MAX,
        format.frame_size_product(w as int, h as int) <= usize::MAX,
        planes_fit(
            format.spec_frame_size(w as int, h as int),
            old(mapping)@.len() as int,
            pitch as int,
            frame_planes(format, pitch as int, w as int, h as int),
        ),
    ensures
        final(mapping)@ == planes_copied(
            old(mapping)@,
            Seq::new(format.spec_frame_size(w as int, h as int) as nat, |i: int| 0u8),
            pitch as int,
            frame_planes(format, pitch as int, w as int, h as int),
        ),
        final(mapping)@ == frame_cleared(
            old(mapping)@,
            pitch as int,
            w as int,
            h as int,
            format,
        ),
        w * format.pixel_bytes() <= pitch ==> forall|r: int, x: int|
            0 <= r < h && 0 <= x < w * format.pixel_bytes() ==> #[trigger] byte_at(
                final(mapping)@,
                0,
                pitch as int,
                r,
                x,
            ) == 0,
{
    let size: usize = format.frame_size(w, h);
    let frame = vec![0u8; size];
    assert(frame@ =~= Seq::new(
        format.spec_frame_size(w as int, h as int) as nat,
        |i: int| 0u8,
    ));
    copy_frame(frame.as_slice(), mapping, pitch, w as usize, h as usize, format);
    proof {
        if w * format.pixel_bytes() <= pitch {
            assert forall|r: int, x: int|
                0 <= r < h && 0 <= x < w * format.pixel_bytes() implies #[trigger] byte_at(
                mapping@,
                0,
                pitch as int,
                r,
                x,
            ) == 0 by {
                cleared_lines_are_zero(
                    old(mapping)@,
                    pitch as int,
                    w as int,
                    h as int,
                    format,
                    r,
                    x,
                );
            }
        }
    }
}

/// A cleared buffer holds zero at every pixel byte of every plane.
pub proof fn cleared_frame_is_zero(
    dst: Seq<u8>,
    pitch: int,
    w: int,
    h: int,
    format: PixelFormat,
    i: int,
    r: int,
    x: int,
)
    requires
        0 <= w,
        0 <= h,
        w * format.pixel_bytes() <= pitch,
        planes_fit(
            format.spec_frame_size(w, h),
            dst.len() as int,
            pitch,
            frame_planes(format, pitch, w, h),
        ),
        0 <= i < frame_planes(format, pitch, w, h).len(),
        0 <= r < frame_planes(format, pitch, w, h)[i].rows,
        0 <= x < frame_planes(format, pitch, w, h)[i].width,
    ensures
        planes_copied(
            dst,
            Seq::new(format.spec_frame_size(w, h) as nat, |i: int| 0u8),
            pitch,
            frame_planes(format, pitch, w, h),
        )[frame_planes(format, pitch, w, h)[i].base + r * pitch + x] == 0,
{
    assert(w * h >= 0) by (nonlinear_arith)
        requires
            0 <= w,
            0 <= h,
    ;
    let zero = Seq::new(format.spec_frame_size(w, h) as nat, |i: int| 0u8);
    copied_frame_reads_back(dst, zero, pitch, w, h, format, i, r, x);
    let p = frame_planes(format, pitch, w, h)[i];
    assert(crate::copy::plane_fits(zero.len() as int, dst.len() as int, pitch, p));
    assert(0 <= r * p.width && r * p.width + p.width <= p.width * p.rows) by (nonlinear_arith)
        requires
            0 <= r <= p.rows - 1,
            0 <= p.width,
    ;
    let cw = w / 2;
    let ch = h / 2;
    assert(cw * ch >= 0 && cw * h >= 0) by (nonlinear_arith)
        requires
            0 <= cw,
            0 <= ch,
            0 <= h,
    ;
    assert(0 <= p.from);
}

/// A dumb buffer as a framebuffer of several planes that all lie in one memory object.
#[derive(Clone, Copy, Debug)]
pub struct DumbWrapper {
    /// Handle of the memory object.
    pub handle: u32,
    pub pitch: u32,
    pub w: u32,
    pub h: u32,
    pub fmt: PixelFormat,
    pub modifier: Option<u64>,
}

impl DumbWrapper {
    pub fn size(&self) -> (r: (u32, u32))
        ensures
            r == (self.w, self.h),
    {
        (self.w, self.h)
    }

    /// Four-character code of the framebuffer.
    pub fn format(&self) -> (r: u32)
        ensures
            r == self.fmt.spec_fourcc(),
    {
        self.fmt.fourcc()
    }

    pub fn modifier(&self) -> (r: Option<u64>)
        ensures
            r == self.modifier,
    {
        self.modifier
    }

    /// Whether the framebuffer is registered with an explicit modifier.
    pub fn with_modifiers(&self) -> (r: bool)
        ensures
            r == (self.modifier is Some),
    {
        self.modifier.is_some()
    }

    /// The pitches of the planes, and zeros behind them.
    pub open spec fn spec_pitches(self) -> Seq<u32> {
        Seq::new(
            4,
            |i: int|
                if i < self.fmt.spec_num_planes() {
                    self.pitch
                } else {
                    0
                },
        )
    }

    /// The memory objects of the planes.
    pub open spec fn spec_handles(self) -> Seq<Option<u32>> {
        Seq::new(
            4,
            |i: int|
                if i < self.fmt.spec_num_planes() {
                    Some(self.handle)
                } else {
                    None
                },
        )
    }

    /// Every plane has the buffer's pitch.
    pub fn pitches(&self) -> (r: [u32; 4])
        ensures
            r@ =~= self.spec_pitches(),
            forall|i: int|
                0 <= i < 4 ==> #[trigger] r@[i] == (if i < self.fmt.spec_num_planes() {
                    self.pitch
                } else {
                    0
                }),
    {
        let pitch = self.pitch;
        match self.fmt {
            PixelFormat::I420 | PixelFormat::I422 | PixelFormat::I444 | PixelFormat::YV12 => [
                pitch,
                pitch,
                pitch,
                0,
            ],
            PixelFormat::NV12 | PixelFormat::NV21 => [pitch, pitch, 0, 0],
            _ => [pitch, 0, 0, 0],
        }
    }

    /// Every plane lies in the same memory object.
    pub fn handles(&self) -> (r: [Option<u32>; 4])
        ensures
            r@ =~= self.spec_handles(),
            forall|i: int|
                0 <= i < 4 ==> #[trigger] r@[i] == (if i < self.fmt.spec_num_planes() {
                    Some(self.handle)
                } else {
                    None
                }),
    {
        let handle = Some(self.handle);
        match self.fmt.num_planes() {
            3 => [handle, handle, handle, None],
            2 => [handle, handle, None, None],
            _ => [handle, None, None, None],
        }
    }

    /// Every plane starts within reach of an offset.
    pub open spec fn offsets_fit(self) -> bool {
        forall|i: int|
            0 <= i < self.fmt.spec_num_planes() ==> (#[trigger] frame_planes(
                self.fmt,
                self.pitch as int,
                self.w as int,
                self.h as int,
            )[i]).base <= u32::MAX
    }

    /// Whether every plane starts within reach of an offset.
    pub fn check_offsets(&self) -> (r: bool)
        ensures
            r == self.offsets_fit(),
    {
        let pitch: u64 = self.pitch as u64;
        let h: u64 = self.h as u64;
        let half: u64 = (self.h / 2) as u64;
        let max: u64 = u32::MAX as u64;
        let ghost planes = frame_planes(
            self.fmt,
            self.pitch as int,
            self.w as int,
            self.h as int,
        );
        assert(0 <= pitch * h <= 0xffff_ffff * 0xffff_ffff && 0 <= pitch * half <= pitch * h)
            by (nonlinear_arith)
            requires
                0 <= pitch <= 0xffff_ffff,
                0 <= half <= h <= 0xffff_ffff,
        ;
        match self.fmt {
            PixelFormat::I420 | PixelFormat::YV12 => {
                assert(planes[2].base == pitch * h + pitch * half);
                assert(planes[1].base == pitch * h);
                pitch * h <= max && pitch * h + pitch * half <= max
            },
            PixelFormat::I422 | PixelFormat::I444 => {
                assert(planes[2].base == pitch * h + pitch * h);
                assert(planes[1].base == pitch * h);
                pitch * h <= max && pitch * h + pitch * h <= max
            },
            PixelFormat::NV12 | PixelFormat::NV21 => {
                assert(planes[1].base == pitch * h);
                pitch * h <= max
            },
            _ => true,
        }
    }

    /// Every plane starts where copying a frame into the buffer puts it.
    pub fn offsets(&self) -> (r: [u32; 4])
        requires
            self.offsets_fit(),
        ensures
            r@[0] == 0 && r@[3] == 0,
            self.fmt.spec_num_planes() > 1 ==> r@[1] == self.pitch * self.h,
            self.fmt == PixelFormat::I420 || self.fmt == PixelFormat::YV12 ==> r@[2] == self.pitch
                * self.h + self.pitch * (self.h / 2),
            self.fmt == PixelFormat::I422 || self.fmt == PixelFormat::I444 ==> r@[2] == self.pitch
                * self.h + self.pitch * self.h,
            forall|i: int|
                0 <= i < 4 ==> #[trigger] r@[i] == (if i < self.fmt.spec_num_planes() {
                    frame_planes(
                        self.fmt,
                        self.pitch as int,
                        self.w as int,
                        self.h as int,
                    )[i].base
                } else {
                    0
                }),
    {
        let pitch = self.pitch;
        let h = self.h;
        proof {
            let planes = frame_planes(
                self.fmt,
                self.pitch as int,
                self.w as int,
                self.h as int,
            );
            assert(0 <= pitch * h && 0 <= pitch * (h / 2)) by (nonlinear_arith);
            if self.fmt.spec_num_planes() >= 2 {
                assert(planes[1].base <= u32::MAX);
            }
            if self.fmt.spec_num_planes() >= 3 {
                assert(planes[2].base <= u32::MAX);
            }
        }
        match self.fmt {
            PixelFormat::I420 | PixelFormat::YV12 => [
                0,
                pitch * h,
                pitch * h + pitch * (h / 2),
                0,
            ],
            PixelFormat::I422 | PixelFormat::I444 => [0, pitch * h, pitch * h * 2, 0],
            PixelFormat::NV12 | PixelFormat::NV21 => [0, pitch * h, 0, 0],
            _ => [0, 0, 0, 0],
        }
    }
}

/// A format has as many copied planes as it says.
pub proof fn plane_counts_agree(format: PixelFormat, pitch: int, w: int, h: int)
    ensures
        frame_planes(format, pitch, w, h).len() == format.spec_num_planes(),
{
}

/// The planes of a dumb buffer start below each other: the first at the start, the second behind
/// as many lines as the frame has, and the third behind the lines of the second.
pub proof fn plane_starts_follow_the_format(format: PixelFormat, pitch: int, w: int, h: int)
    ensures
        ({
            let planes = frame_planes(format, pitch, w, h);
            &&& planes[0].base == 0
            &&& format.spec_num_planes() > 1 ==> planes[1].base == pitch * h
            &&& format == PixelFormat::I420 || format == PixelFormat::YV12 ==> planes[2].base
                == pitch * h + pitch * (h / 2)
            &&& format == PixelFormat::I422 || format == PixelFormat::I444 ==> planes[2].base
                == pitch * h + pitch * h
        }),
{
}

/// Offsets can be given where the last plane starts within 32 bits.
pub proof fn offsets_fit_where_the_last_plane_does(buffer: DumbWrapper)
    ensures
        buffer.offsets_fit() <==> match buffer.fmt {
            PixelFormat::I420 | PixelFormat::YV12 => buffer.pitch * buffer.h + buffer.pitch * (
            buffer.h / 2) <= 0xffff_ffff,
            PixelFormat::I422 | PixelFormat::I444 => buffer.pitch * buffer.h + buffer.pitch
                * buffer.h <= 0xffff_ffff,
            PixelFormat::NV12 | PixelFormat::NV21 => buffer.pitch * buffer.h <= 0xffff_ffff,
            _ => true,
        },
{
    let pitch = buffer.pitch as int;
    let h = buffer.h as int;
    let planes = frame_planes(buffer.fmt, pitch, buffer.w as int, h);
    assert(0 <= pitch * h && 0 <= pitch * (h / 2)) by (nonlinear_arith)
        requires
            0 <= pitch,
            0 <= h,
    ;
    assert(planes[0].base == 0);
    if buffer.fmt.spec_num_planes() > 1 {
        assert(planes[1].base == pitch * h);
    }
    if buffer.offsets_fit() && buffer.fmt.spec_num_planes() > 2 {
        assert(planes[2].base <= u32::MAX);
    }
    if buffer.offsets_fit() && buffer.fmt.spec_num_planes() > 1 {
        assert(planes[1].base <= u32::MAX);
    }
}

/// A cleared buffer is zero where the first plane's lines are, and where the chroma lines of a
/// format with chroma of its own are.
pub proof fn cleared_lines_are_zero(
    dst: Seq<u8>,
    pitch: int,
    w: int,
    h: int,
    format: PixelFormat,
    r: int,
    x: int,
)
    requires
        0 <= w,
        0 <= h,
        w * format.pixel_bytes() <= pitch,
        planes_fit(
            format.spec_frame_size(w, h),
            dst.len() as int,
            pitch,
            frame_planes(format, pitch, w, h),
        ),
        0 <= r < h,
        0 <= x,
    ensures
        ({
            let out = frame_cleared(dst, pitch, w, h, format);
            &&& x < w * format.pixel_bytes() ==> out[r * pitch + x] == 0
            &&& (format == PixelFormat::NV12 || format == PixelFormat::NV21) && r < h / 2 && x < w
                ==> out[pitch * h + r * pitch + x] == 0
            &&& (format == PixelFormat::I420 || format == PixelFormat::YV12) && r < h / 2 && x < w
                / 2 ==> out[pitch * h + r * pitch + x] == 0 && out[pitch * h + pitch * (h / 2) + r
                * pitch + x] == 0
            &&& format == PixelFormat::I422 && x < w / 2 ==> out[pitch * h + r * pitch + x] == 0
                && out[pitch * h + pitch * h + r * pitch + x] == 0
            &&& format == PixelFormat::I444 && x < w ==> out[pitch * h + r * pitch + x] == 0
                && out[pitch * h + pitch * h + r * pitch + x] == 0
        }),
{
    let planes = frame_planes(format, pitch, w, h);
    let b = format.pixel_bytes();
    assert(b == 1 ==> w * b == w);
    if x < w * b {
        cleared_frame_is_zero(dst, pitch, w, h, format, 0, r, x);
    }
    if format.spec_num_planes() > 1 && r < planes[1].rows && x < planes[1].width {
        cleared_frame_is_zero(dst, pitch, w, h, format, 1, r, x);
    }
    if format.spec_num_planes() > 2 && r < planes[2].rows && x < planes[2].width {
        cleared_frame_is_zero(dst, pitch, w, h, format, 2, r, x);
    }
}

/// Raw frames have a modifier only on a Raspberry Pi whose card vc4 drives: the vendor's number in
/// the highest byte, and the number of its column format.
pub proof fn raw_modifier_is_the_column_format(rpi: bool, is_vc4: bool)
    ensures
        spec_raw_modifier(rpi, is_vc4) is Some <==> rpi && is_vc4,
        spec_raw_modifier(rpi, is_vc4) matches Some(m) ==> m == 7 * 0x100_0000_0000_0000 + 4,
{
}

/// All planes lie in one memory object, with the pitch of the buffer: three for planar formats, two
/// where chroma is interleaved, one for packed formats. The slots behind them are empty.
pub proof fn planes_share_the_buffer(buffer: DumbWrapper, handle: Option<u32>)
    requires
        handle == Some(buffer.handle),
    ensures
        ({
            let pitch = buffer.pitch;
            match buffer.fmt {
                PixelFormat::I420 | PixelFormat::YV12 | PixelFormat::I422 | PixelFormat::I444 => {
                    &&& buffer.spec_pitches() =~= seq![pitch, pitch, pitch, 0u32]
                    &&& buffer.spec_handles() =~= seq![handle, handle, handle, None]
                },
                PixelFormat::NV12 | PixelFormat::NV21 => {
                    &&& buffer.spec_pitches() =~= seq![pitch, pitch, 0u32, 0u32]
                    &&& buffer.spec_handles() =~= seq![handle, handle, None, None]
                },
                _ => {
                    &&& buffer.spec_pitches() =~= seq![pitch, 0u32, 0u32, 0u32]
                    &&& buffer.spec_handles() =~= seq![handle, None, None, None]
                },
            }
        }),
{
}

} // verus!
