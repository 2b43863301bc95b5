//! The raw pixel formats that frames arrive in, and the sizes that follow from them.
use crate::fourcc::letters;
use crate::text::{self, all_ascii, ascii_upper, uppercase};
use vstd::prelude::*;

verus! {

pub const FOURCC_YUV420: u32 = 842093913;

pub const FOURCC_YUV422: u32 = 909202777;

pub const FOURCC_YUV444: u32 = 875713881;

pub const FOURCC_RGB888: u32 = 875710290;

pub const FOURCC_BGRA8888: u32 = 875708738;

pub const FOURCC_RGBA8888: u32 = 875708754;

pub const FOURCC_NV12: u32 = 842094158;

pub const FOURCC_NV21: u32 = 825382478;

pub const FOURCC_YVU420: u32 = 842094169;

pub const FOURCC_AYUV: u32 = 1448433985;

pub const FOURCC_YUYV: u32 = 1448695129;

#[derive(Clone, Copy, PartialEq, Eq, Structural, Debug)]
#[allow(clippy::upper_case_acronyms)]
pub enum PixelFormat {
    I420,
    I422,
    I444,
    RGB,
    BGRA,
    RGBA,
    NV12,
    NV21,
    YV12,
    AYUV,
    YUY2,
}

impl PixelFormat {
    /// The name that callers select the format by.
    pub open spec fn spec_name(self) -> Seq<char> {
        match self {
            PixelFormat::I420 => "I420"@,
            PixelFormat::I422 => "I422"@,
            PixelFormat::I444 => "I444"@,
            PixelFormat::RGB => "RGB"@,
            PixelFormat::BGRA => "BGRA"@,
            PixelFormat::RGBA => "RGBA"@,
            PixelFormat::NV12 => "NV12"@,
            PixelFormat::NV21 => "NV21"@,
            PixelFormat::YV12 => "YV12"@,
            PixelFormat::AYUV => "AYUV"@,
            PixelFormat::YUY2 => "YUY2"@,
        }
    }

    /// `r` is the format of the given name, if there is one.
    pub open spec fn is_named(r: Option<PixelFormat>, name: Seq<char>) -> bool {
        match r {
            Some(format) => format.spec_name() == name,
            None => forall|format: PixelFormat| #[trigger] format.spec_name() != name,
        }
    }

    /// The format of exactly this name.
    pub fn from_name(name: &str) -> (r: Option<PixelFormat>)
        ensures
            PixelFormat::is_named(r, name@),
    {
        if text::same_text(name, "I420") {
            Some(PixelFormat::I420)
        } else if text::same_text(name, "I422") {
            Some(PixelFormat::I422)
        } else if text::same_text(name, "I444") {
            Some(PixelFormat::I444)
        } else if text::same_text(name, "RGB") {
            Some(PixelFormat::RGB)
        } else if text::same_text(name, "BGRA") {
            Some(PixelFormat::BGRA)
        } else if text::same_text(name, "RGBA") {
            Some(PixelFormat::RGBA)
        } else if text::same_text(name, "NV12") {
            Some(PixelFormat::NV12)
        } else if text::same_text(name, "NV21") {
            Some(PixelFormat::NV21)
        } else if text::same_text(name, "YV12") {
            Some(PixelFormat::YV12)
        } else if text::same_text(name, "AYUV") {
            Some(PixelFormat::AYUV)
        } else if text::same_text(name, "YUY2") {
            Some(PixelFormat::YUY2)
        } else {
            None
        }
    }

    /// The format of this name, whatever the case it is written in.
    pub fn from_str(s: &str) -> (r: Option<PixelFormat>)
        ensures
            PixelFormat::is_named(r, uppercase(s@)),
            all_ascii(s@) ==> PixelFormat::is_named(r, s@.map_values(|c: char| ascii_upper(c))),
    {
        let upper = text::to_uppercase(s);
        PixelFormat::from_name(upper.as_str())
    }

    pub open spec fn spec_fourcc(self) -> u32 {
        match self {
            PixelFormat::I420 => FOURCC_YUV420,
            PixelFormat::I422 => FOURCC_YUV422,
            PixelFormat::I444 => FOURCC_YUV444,
            PixelFormat::RGB => FOURCC_RGB888,
            PixelFormat::BGRA => FOURCC_BGRA8888,
            PixelFormat::RGBA => FOURCC_RGBA8888,
            PixelFormat::NV12 => FOURCC_NV12,
            PixelFormat::NV21 => FOURCC_NV21,
            PixelFormat::YV12 => FOURCC_YVU420,
            PixelFormat::AYUV => FOURCC_AYUV,
            PixelFormat::YUY2 => FOURCC_YUYV,
        }
    }

    /// The DRM four-character code of the format.
    pub fn fourcc(self) -> (code: u32)
        ensures
            code == self.spec_fourcc(),
    {
        match self {
            PixelFormat::I420 => FOURCC_YUV420,
            PixelFormat::I422 => FOURCC_YUV422,
            PixelFormat::I444 => FOURCC_YUV444,
            PixelFormat::RGB => FOURCC_RGB888,
            PixelFormat::BGRA => FOURCC_BGRA8888,
            PixelFormat::RGBA => FOURCC_RGBA8888,
            PixelFormat::NV12 => FOURCC_NV12,
            PixelFormat::NV21 => FOURCC_NV21,
            PixelFormat::YV12 => FOURCC_YVU420,
            PixelFormat::AYUV => FOURCC_AYUV,
            PixelFormat::YUY2 => FOURCC_YUYV,
        }
    }

    /// Bytes that one pixel takes in the first plane.
    pub open spec fn pixel_bytes(self) -> int {
        match self {
            PixelFormat::RGB => 3,
            PixelFormat::BGRA | PixelFormat::RGBA | PixelFormat::AYUV => 4,
            PixelFormat::YUY2 => 2,
            _ => 1,
        }
    }

    /// Bits per pixel of the first plane.
    pub fn bpp(self) -> (bits: u32)
        ensures
            bits == 8 * self.pixel_bytes(),
    {
        match self {
            PixelFormat::RGB => 24,
            PixelFormat::BGRA | PixelFormat::RGBA | PixelFormat::AYUV => 32,
            PixelFormat::YUY2 => 16,
            _ => 8,
        }
    }

    /// Rows of a buffer that holds all planes of a frame of `h` lines below each other.
    pub open spec fn spec_buffer_height(self, h: int) -> int {
        match self {
            PixelFormat::I420 | PixelFormat::YV12 => h * 2,
            PixelFormat::NV12 | PixelFormat::NV21 => h * 3 / 2,
            PixelFormat::I422 | PixelFormat::I444 => h * 3,
            _ => h,
        }
    }

    /// The factor that `h` is first multiplied by.
    pub open spec fn height_factor(self) -> int {
        match self {
            PixelFormat::I420 | PixelFormat::YV12 => 2,
            PixelFormat::NV12 | PixelFormat::NV21 | PixelFormat::I422 | PixelFormat::I444 => 3,
            _ => 1,
        }
    }

    /// The rows to allocate for a frame of `h` lines.
    pub fn buffer_height(self, h: u32) -> (rows: u32)
        requires
            h * self.height_factor() <= u32::MAX,
        ensures
            rows == self.spec_buffer_height(h as int),
    {
        match self {
            PixelFormat::I420 | PixelFormat::YV12 => h * 2,
            PixelFormat::NV12 | PixelFormat::NV21 => h * 3 / 2,
            PixelFormat::I422 | PixelFormat::I444 => h * 3,
            _ => h,
        }
    }

    /// Bytes of a tightly packed frame of `w` times `h` pixels.
    pub open spec fn spec_frame_size(self, w: int, h: int) -> int {
        match self {
            PixelFormat::I420 | PixelFormat::NV12 | PixelFormat::NV21 | PixelFormat::YV12 => w * h
                * 3 / 2,
            PixelFormat::I422 | PixelFormat::YUY2 => w * h * 2,
            PixelFormat::I444 | PixelFormat::RGB => w * h * 3,
            PixelFormat::BGRA | PixelFormat::RGBA | PixelFormat::AYUV => w * h * 4,
        }
    }

    /// The largest product that is formed on the way to the frame size.
    pub open spec fn frame_size_product(self, w: int, h: int) -> int {
        match self {
            PixelFormat::I420 | PixelFormat::NV12 | PixelFormat::NV21 | PixelFormat::YV12 => w * h
                * 3,
            _ => self.spec_frame_size(w, h),
        }
    }

    /// Bytes of a tightly packed frame of `w` times `h` pixels.
    pub fn frame_size(self, w: u32, h: u32) -> (bytes: usize)
        requires
            self.frame_size_product(w as int, h as int) <= usize::MAX,
        ensures
            bytes == self.spec_frame_size(w as int, h as int),
    {
        let w: usize = w as usize;
        let h: usize = h as usize;
        assert(w * h >= 0) by (nonlinear_arith);
        match self {
            PixelFormat::I420 | PixelFormat::NV12 | PixelFormat::NV21 | PixelFormat::YV12 => w * h
                * 3 / 2,
            PixelFormat::I422 | PixelFormat::YUY2 => w * h * 2,
            PixelFormat::I444 | PixelFormat::RGB => w * h * 3,
            PixelFormat::BGRA | PixelFormat::RGBA | PixelFormat::AYUV => w * h * 4,
        }
    }

    /// The frame size, or `None` where it cannot be computed in a `usize`.
    pub fn checked_frame_size(self, w: u32, h: u32) -> (bytes: Option<usize>)
        ensures
            bytes == (if self.frame_size_product(w as int, h as int) <= usize::MAX {
                Some(self.spec_frame_size(w as int, h as int) as usize)
            } else {
                None
            }),
    {
        assert(0 <= w * h <= 0xffff_ffff * 0xffff_ffff) by (nonlinear_arith)
            requires
                w <= 0xffff_ffff,
                h <= 0xffff_ffff,
        ;
        let area: u128 = w as u128 * h as u128;
        let product: u128 = match self {
            PixelFormat::I420
            | PixelFormat::NV12
            | PixelFormat::NV21
            | PixelFormat::YV12
            | PixelFormat::I444
            | PixelFormat::RGB => area * 3,
            PixelFormat::I422 | PixelFormat::YUY2 => area * 2,
            PixelFormat::BGRA | PixelFormat::RGBA | PixelFormat::AYUV => area * 4,
        };
        if product <= usize::MAX as u128 {
            Some(self.frame_size(w, h))
        } else {
            None
        }
    }

    pub open spec fn spec_num_planes(self) -> int {
        match self {
            PixelFormat::I420 | PixelFormat::I422 | PixelFormat::I444 | PixelFormat::YV12 => 3,
            PixelFormat::NV12 | PixelFormat::NV21 => 2,
            _ => 1,
        }
    }

    /// Number of planes that a frame consists of.
    pub fn num_planes(self) -> (n: usize)
        ensures
            n == self.spec_num_planes(),
    {
        match self {
            PixelFormat::I420 | PixelFormat::I422 | PixelFormat::I444 | PixelFormat::YV12 => 3,
            PixelFormat::NV12 | PixelFormat::NV21 => 2,
            _ => 1,
        }
    }

    pub open spec fn spec_fb_format(self) -> PixelFormat {
        match self {
            PixelFormat::I420 => PixelFormat::NV12,
            other => other,
        }
    }

    /// The format that frames of this format are scanned out in.
    pub fn fb_format(self) -> (r: PixelFormat)
        ensures
            r == self.spec_fb_format(),
    {
        match self {
            PixelFormat::I420 => PixelFormat::NV12,
            other => other,
        }
    }
}

/// No two formats have the same name.
pub proof fn names_are_distinct(a: PixelFormat, b: PixelFormat)
    ensures
        a.spec_name() == b.spec_name() ==> a == b,
{
    reveal_strlit("I420");
    reveal_strlit("I422");
    reveal_strlit("I444");
    reveal_strlit("RGB");
    reveal_strlit("BGRA");
    reveal_strlit("RGBA");
    reveal_strlit("NV12");
    reveal_strlit("NV21");
    reveal_strlit("YV12");
    reveal_strlit("AYUV");
    reveal_strlit("YUY2");
    let s = a.spec_name();
    let t = b.spec_name();
    assert(s == t ==> s.len() == t.len() && s[0] == t[0] && s[1] == t[1] && s[2] == t[2] && (
    s.len() == 4 ==> s[3] == t[3]));
}

/// A name belongs to at most one format: what [`PixelFormat::is_named`] admits is unique.
pub proof fn named_format_is_unique(
    r: Option<PixelFormat>,
    s: Option<PixelFormat>,
    name: Seq<char>,
)
    requires
        PixelFormat::is_named(r, name),
        PixelFormat::is_named(s, name),
    ensures
        r == s,
{
    if r is Some && s is Some {
        names_are_distinct(r->0, s->0);
    }
}

/// Choosing the scan-out format twice is choosing it once, and it never changes the frame size.
pub proof fn fb_format_is_stable(format: PixelFormat, w: int, h: int)
    ensures
        format.spec_fb_format().spec_fb_format() == format.spec_fb_format(),
        format.spec_fb_format().spec_frame_size(w, h) == format.spec_frame_size(w, h),
        format.spec_fb_format().pixel_bytes() == format.pixel_bytes(),
{
}

/// Every format goes by its own name.
pub proof fn formats_are_named(format: PixelFormat)
    ensures
        format.spec_name() == "I420"@ <==> format == PixelFormat::I420,
        format.spec_name() == "I422"@ <==> format == PixelFormat::I422,
        format.spec_name() == "I444"@ <==> format == PixelFormat::I444,
        format.spec_name() == "RGB"@ <==> format == PixelFormat::RGB,
        format.spec_name() == "BGRA"@ <==> format == PixelFormat::BGRA,
        format.spec_name() == "RGBA"@ <==> format == PixelFormat::RGBA,
        format.spec_name() == "NV12"@ <==> format == PixelFormat::NV12,
        format.spec_name() == "NV21"@ <==> format == PixelFormat::NV21,
        format.spec_name() == "YV12"@ <==> format == PixelFormat::YV12,
        format.spec_name() == "AYUV"@ <==> format == PixelFormat::AYUV,
        format.spec_name() == "YUY2"@ <==> format == PixelFormat::YUY2,
{
    names_are_distinct(format, PixelFormat::I420);
    names_are_distinct(format, PixelFormat::I422);
    names_are_distinct(format, PixelFormat::I444);
    names_are_distinct(format, PixelFormat::RGB);
    names_are_distinct(format, PixelFormat::BGRA);
    names_are_distinct(format, PixelFormat::RGBA);
    names_are_distinct(format, PixelFormat::NV12);
    names_are_distinct(format, PixelFormat::NV21);
    names_are_distinct(format, PixelFormat::YV12);
    names_are_distinct(format, PixelFormat::AYUV);
    names_are_distinct(format, PixelFormat::YUY2);
}

/// The code of a format is made up of the four letters that displays know it by.
pub proof fn format_codes_spell_their_names(format: PixelFormat)
    ensures
        format.spec_fourcc() as int == match format {
            PixelFormat::I420 => letters('Y', 'U', '1', '2'),
            PixelFormat::I422 => letters('Y', 'U', '1', '6'),
            PixelFormat::I444 => letters('Y', 'U', '2', '4'),
            PixelFormat::RGB => letters('R', 'G', '2', '4'),
            PixelFormat::BGRA => letters('B', 'A', '2', '4'),
            PixelFormat::RGBA => letters('R', 'A', '2', '4'),
            PixelFormat::NV12 => letters('N', 'V', '1', '2'),
            PixelFormat::NV21 => letters('N', 'V', '2', '1'),
            PixelFormat::YV12 => letters('Y', 'V', '1', '2'),
            PixelFormat::AYUV => letters('A', 'Y', 'U', 'V'),
            PixelFormat::YUY2 => letters('Y', 'U', 'Y', 'V'),
        },
{
}

/// Only I420 frames are scanned out in another format, which is NV12.
pub proof fn only_i420_is_scanned_out_otherwise(format: PixelFormat)
    ensures
        format.spec_fb_format() != format <==> format == PixelFormat::I420,
        format == PixelFormat::I420 ==> format.spec_fb_format() == PixelFormat::NV12,
{
}

/// Buffers for formats with interleaved chroma have half as many rows again as the frame has
/// lines, those for I420 and YV12 twice as many and those for I422 and I444 three times as many.
/// The row count is formed from a product that fits if and only if the factor does.
pub proof fn buffer_rows_follow_the_format(format: PixelFormat, h: int)
    requires
        0 <= h,
    ensures
        ({
            let rows = format.spec_buffer_height(h);
            match format {
                PixelFormat::NV12 | PixelFormat::NV21 => 2 * rows <= 3 * h < 2 * rows + 2
                    && format.height_factor() == 3,
                PixelFormat::I420 | PixelFormat::YV12 => rows == h + h && format.height_factor()
                    == 2,
                PixelFormat::I422 | PixelFormat::I444 => rows == h + h + h
                    && format.height_factor() == 3,
                PixelFormat::RGB
                | PixelFormat::BGRA
                | PixelFormat::RGBA
                | PixelFormat::AYUV
                | PixelFormat::YUY2 => rows == h && format.height_factor() == 1,
            }
        }),
{
}

/// A frame of one plane takes its bytes per pixel times its pixels; a frame of several has one
/// byte per pixel in the first of them. Sizes that are halved are formed from three times the
/// number of pixels, all others directly.
pub proof fn packed_frames_are_pixels_times_bytes(format: PixelFormat, w: int, h: int)
    ensures
        format.spec_num_planes() == 1 ==> format.spec_frame_size(w, h) == w * h
            * format.pixel_bytes(),
        format.spec_num_planes() > 1 <==> format.pixel_bytes() == 1,
        format.pixel_bytes() == 3 <==> format == PixelFormat::RGB,
        format.pixel_bytes() == 2 <==> format == PixelFormat::YUY2,
        format.pixel_bytes() == 4 <==> format == PixelFormat::BGRA || format == PixelFormat::RGBA
            || format == PixelFormat::AYUV,
        format.spec_num_planes() == 2 <==> format == PixelFormat::NV12 || format
            == PixelFormat::NV21,
        format.spec_num_planes() == 3 <==> format == PixelFormat::I420 || format
            == PixelFormat::YV12 || format == PixelFormat::I422 || format == PixelFormat::I444,
        format.frame_size_product(w, h) == (if format.spec_num_planes() == 2 || format
            == PixelFormat::I420 || format == PixelFormat::YV12 {
            3 * (w * h)
        } else {
            format.spec_frame_size(w, h)
        }),
{
    let area = w * h;
    assert(format.pixel_bytes() == 2 ==> area * format.pixel_bytes() == area * 2);
    assert(format.pixel_bytes() == 3 ==> area * format.pixel_bytes() == area * 3);
    assert(format.pixel_bytes() == 4 ==> area * format.pixel_bytes() == area * 4);
}

/// Every format is found by its name, and there is no answer only for a name of none.
pub proof fn formats_are_found_by_name(
    format: PixelFormat,
    name: Seq<char>,
    found: Option<PixelFormat>,
)
    ensures
        PixelFormat::is_named(found, format.spec_name()) <==> found == Some(format),
        PixelFormat::is_named(None, name) ==> format.spec_name() != name,
{
    if found is Some {
        names_are_distinct(found->0, format);
    }
}

} // verus!
