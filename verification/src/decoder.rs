//! What a decoder is asked for, and how it is set up.
use crate::pixel_format::PixelFormat;
use crate::text::same_text;
use vstd::prelude::*;

verus! {

/// The sample layouts that decisions depend on.
#[derive(Clone, Copy, PartialEq, Eq, Structural, Debug)]
pub enum Pixel {
    Yuv420P,
    Yuv422P,
    Yuv444P,
    Rgb24,
    Bgra,
    Rgba,
    Nv12,
    Nv21,
    Ayuv64Le,
    Yuyv422,
    /// Frames that lie in DMA-BUFs.
    DrmPrime,
    /// Frames that lie in surfaces of the video card.
    Vaapi,
    /// Any other layout, by its number.
    Other(i32),
}

impl Pixel {
    /// The layout that decoded frames of the format have.
    pub open spec fn spec_of(format: PixelFormat) -> Pixel {
        match format {
            PixelFormat::I420 => Pixel::Yuv420P,
            PixelFormat::I422 => Pixel::Yuv422P,
            PixelFormat::I444 => Pixel::Yuv444P,
            PixelFormat::RGB => Pixel::Rgb24,
            PixelFormat::BGRA => Pixel::Bgra,
            PixelFormat::RGBA => Pixel::Rgba,
            PixelFormat::NV12 => Pixel::Nv12,
            PixelFormat::NV21 => Pixel::Nv21,
            PixelFormat::YV12 => Pixel::Yuv420P,
            PixelFormat::AYUV => Pixel::Ayuv64Le,
            PixelFormat::YUY2 => Pixel::Yuyv422,
        }
    }

    pub fn of(format: PixelFormat) -> (r: Pixel)
        ensures
            r == Pixel::spec_of(format),
    {
        match format {
            PixelFormat::I420 => Pixel::Yuv420P,
            PixelFormat::I422 => Pixel::Yuv422P,
            PixelFormat::I444 => Pixel::Yuv444P,
            PixelFormat::RGB => Pixel::Rgb24,
            PixelFormat::BGRA => Pixel::Bgra,
            PixelFormat::RGBA => Pixel::Rgba,
            PixelFormat::NV12 => Pixel::Nv12,
            PixelFormat::NV21 => Pixel::Nv21,
            PixelFormat::YV12 => Pixel::Yuv420P,
            PixelFormat::AYUV => Pixel::Ayuv64Le,
            PixelFormat::YUY2 => Pixel::Yuyv422,
        }
    }
}

/// `r` is the layout for the format of this name, if there is such a format.
pub open spec fn is_pixel_of_name(r: Option<Pixel>, name: Seq<char>) -> bool {
    match r {
        Some(pixel) => exists|format: PixelFormat|
            #[trigger] format.spec_name() == name && pixel == Pixel::spec_of(format),
        None => forall|format: PixelFormat| #[trigger] format.spec_name() != name,
    }
}

/// The layout for the format of exactly this name.
pub fn pixel_from_atom(name: &str) -> (r: Option<Pixel>)
    ensures
        is_pixel_of_name(r, name@),
{
    match PixelFormat::from_name(name) {
        Some(format) => {
            assert(format.spec_name() == name@);
            Some(Pixel::of(format))
        },
        None => None,
    }
}

/// What decodes.
#[derive(Clone, Copy, PartialEq, Eq, Structural, Debug)]
pub enum Backend {
    Auto,
    Vaapi,
    V4l2Request,
    V4l2M2M,
    Software,
}

impl Backend {
    pub open spec fn spec_name(self) -> Seq<char> {
        match self {
            Backend::Auto => "auto"@,
            Backend::Vaapi => "vaapi"@,
            Backend::V4l2Request => "v4l2request"@,
            Backend::V4l2M2M => "v4l2m2m"@,
            Backend::Software => "software"@,
        }
    }

    pub open spec fn is_named(r: Option<Backend>, name: Seq<char>) -> bool {
        match r {
            Some(backend) => backend.spec_name() == name,
            None => forall|backend: Backend| #[trigger] backend.spec_name() != name,
        }
    }

    /// The backend of exactly this name.
    pub fn from_name(name: &str) -> (r: Option<Backend>)
        ensures
            Backend::is_named(r, name@),
    {
        if same_text(name, "auto") {
            Some(Backend::Auto)
        } else if same_text(name, "vaapi") {
            Some(Backend::Vaapi)
        } else if same_text(name, "v4l2request") {
            Some(Backend::V4l2Request)
        } else if same_text(name, "v4l2m2m") {
            Some(Backend::V4l2M2M)
        } else if same_text(name, "software") {
            Some(Backend::Software)
        } else {
            None
        }
    }
}

/// What comes out.
#[derive(Clone, Copy, PartialEq, Eq, Structural, Debug)]
pub enum OutputMode {
    Dmabuf,
    Raw,
}

/// Why a decoder is not created.
#[derive(Clone, Copy, PartialEq, Eq, Structural, Debug)]
pub enum OptionError {
    BadArg,
    BadPixelFormat,
}

/// A decoder as it was asked for.
#[derive(Debug)]
pub struct DecoderOptions {
    pub output_mode: OutputMode,
    /// The layout of raw frames.
    pub raw_target: Option<Pixel>,
    pub hw_device: Option<String>,
    pub backend: Backend,
}

/// An empty name stands for no device.
pub fn device_path(hw_device: String) -> (r: Option<String>)
    ensures
        match r {
            Some(path) => hw_device@.len() > 0 && path@ == hw_device@,
            None => hw_device@.len() == 0,
        },
{
    proof {
        reveal_strlit("");
    }
    if same_text(hw_device.as_str(), "") {
        assert(hw_device@ =~= ""@);
        None
    } else {
        assert(hw_device@.len() == 0 ==> hw_device@ =~= ""@);
        Some(hw_device)
    }
}

/// The layout of raw frames: needed for raw output, and ignored otherwise.
pub open spec fn is_raw_target(
    output: Seq<char>,
    output_format: Option<Seq<char>>,
    r: Option<Pixel>,
) -> bool {
    if output == "raw"@ {
        output_format matches Some(name) && r is Some && is_pixel_of_name(r, name)
    } else {
        r is None
    }
}

/// What is wrong with the options, if anything is.
pub open spec fn option_error(
    output: Seq<char>,
    format: Option<Seq<char>>,
    decoder: Seq<char>,
) -> Option<OptionError> {
    if output != "dmabuf"@ && output != "raw"@ {
        Some(OptionError::BadArg)
    } else if output == "raw"@ && format is None {
        Some(OptionError::BadArg)
    } else if output == "raw"@ && is_pixel_of_name(None, format->0) {
        Some(OptionError::BadPixelFormat)
    } else if Backend::is_named(None, decoder) {
        Some(OptionError::BadArg)
    } else {
        None
    }
}

/// Reads the options of a decoder. They are looked at in the order output, format, backend.
pub fn parse_options(
    output: &str,
    output_format: Option<String>,
    hw_device: String,
    decoder: &str,
) -> (r: Result<DecoderOptions, OptionError>)
    ensures
        ({
            let format = match output_format {
                Some(name) => Some(name@),
                None => None,
            };
            match r {
                Ok(options) => {
                    &&& options.output_mode == OutputMode::Dmabuf ==> output@ == "dmabuf"@
                    &&& options.output_mode == OutputMode::Raw ==> output@ == "raw"@
                    &&& is_raw_target(output@, format, options.raw_target)
                    &&& match options.hw_device {
                        Some(path) => hw_device@.len() > 0 && path@ == hw_device@,
                        None => hw_device@.len() == 0,
                    }
                    &&& options.backend.spec_name() == decoder@
                },
                Err(e) => if output@ != "dmabuf"@ && output@ != "raw"@ {
                    e == OptionError::BadArg
                } else if output@ == "raw"@ && format is None {
                    e == OptionError::BadArg
                } else if output@ == "raw"@ && is_pixel_of_name(None, format->0) {
                    e == OptionError::BadPixelFormat
                } else {
                    &&& Backend::is_named(None, decoder@)
                    &&& e == OptionError::BadArg
                },
            }
        }),
        option_error(output@, given_path(output_format), decoder@) == (match r {
            Ok(_) => None,
            Err(e) => Some(e),
        }),
{
    proof {
        output_names_differ();
    }
    let path = device_path(hw_device);
    let output_mode = if same_text(output, "dmabuf") {
        OutputMode::Dmabuf
    } else if same_text(output, "raw") {
        OutputMode::Raw
    } else {
        return Err(OptionError::BadArg);
    };
    let raw_target = match output_mode {
        OutputMode::Dmabuf => None,
        OutputMode::Raw => match output_format {
            None => {
                return Err(OptionError::BadArg);
            },
            Some(name) => match pixel_from_atom(name.as_str()) {
                Some(pixel) => Some(pixel),
                None => {
                    return Err(OptionError::BadPixelFormat);
                },
            },
        },
    };
    proof {
        if output@ == "raw"@ {
            let name = output_format->0@;
            let format = choose|format: PixelFormat|
                #[trigger] format.spec_name() == name && raw_target->0 == Pixel::spec_of(format);
            assert(format.spec_name() == name);
        }
    }
    match Backend::from_name(decoder) {
        Some(backend) => Ok(DecoderOptions { output_mode, raw_target, hw_device: path, backend }),
        None => Err(OptionError::BadArg),
    }
}

proof fn output_names_differ()
    ensures
        "dmabuf"@ != "raw"@,
{
    reveal_strlit("dmabuf");
    reveal_strlit("raw");
    assert("dmabuf"@.len() != "raw"@.len());
}

/// A decoder of the media library.
#[derive(Clone, Copy, PartialEq, Eq, Structural, Debug)]
pub enum CodecName {
    HevcV4l2Request,
    H265V4l2Request,
    HevcV4l2M2M,
    H265V4l2M2M,
    /// The library's own choice for the standard.
    Hevc,
}

impl CodecName {
    pub open spec fn spec_text(self) -> Option<Seq<char>> {
        match self {
            CodecName::HevcV4l2Request => Some("hevc_v4l2request"@),
            CodecName::H265V4l2Request => Some("h265_v4l2request"@),
            CodecName::HevcV4l2M2M => Some("hevc_v4l2m2m"@),
            CodecName::H265V4l2M2M => Some("h265_v4l2m2m"@),
            CodecName::Hevc => None,
        }
    }

    /// The name that the library knows the decoder by, unless the choice is left to it.
    pub fn text(self) -> (r: Option<&'static str>)
        ensures
            match self {
                CodecName::HevcV4l2Request => r matches Some(t) && t@ == "hevc_v4l2request"@,
                CodecName::H265V4l2Request => r matches Some(t) && t@ == "h265_v4l2request"@,
                CodecName::HevcV4l2M2M => r matches Some(t) && t@ == "hevc_v4l2m2m"@,
                CodecName::H265V4l2M2M => r matches Some(t) && t@ == "h265_v4l2m2m"@,
                CodecName::Hevc => r is None,
            },
            r is Some <==> self.spec_text() is Some,
            r matches Some(t) ==> self.spec_text() == Some(t@),
    {
        match self {
            CodecName::HevcV4l2Request => Some("hevc_v4l2request"),
            CodecName::H265V4l2Request => Some("h265_v4l2request"),
            CodecName::HevcV4l2M2M => Some("hevc_v4l2m2m"),
            CodecName::H265V4l2M2M => Some("h265_v4l2m2m"),
            CodecName::Hevc => None,
        }
    }

    /// The decoder hands its frames out as DMA-BUFs.
    pub open spec fn spec_uses_v4l2(self) -> bool {
        self != CodecName::Hevc
    }
}

/// The decoders of a backend, best first.
pub open spec fn spec_candidates(backend: Backend) -> Seq<CodecName> {
    match backend {
        Backend::Auto => seq![
            CodecName::HevcV4l2Request,
            CodecName::H265V4l2Request,
            CodecName::HevcV4l2M2M,
            CodecName::H265V4l2M2M,
            CodecName::Hevc,
        ],
        Backend::V4l2Request => seq![CodecName::HevcV4l2Request, CodecName::H265V4l2Request],
        Backend::V4l2M2M => seq![CodecName::HevcV4l2M2M, CodecName::H265V4l2M2M],
        Backend::Vaapi => seq![CodecName::Hevc],
        Backend::Software => seq![CodecName::Hevc],
    }
}

/// The decoders to look for, best first.
pub fn candidates(backend: Backend) -> (r: Vec<CodecName>)
    ensures
        r@ == spec_candidates(backend),
{
    let r = match backend {
        Backend::Auto => vec![
            CodecName::HevcV4l2Request,
            CodecName::H265V4l2Request,
            CodecName::HevcV4l2M2M,
            CodecName::H265V4l2M2M,
            CodecName::Hevc,
        ],
        Backend::V4l2Request => vec![CodecName::HevcV4l2Request, CodecName::H265V4l2Request],
        Backend::V4l2M2M => vec![CodecName::HevcV4l2M2M, CodecName::H265V4l2M2M],
        Backend::Vaapi => vec![CodecName::Hevc],
        Backend::Software => vec![CodecName::Hevc],
    };
    assert(r@ =~= spec_candidates(backend));
    r
}

/// A decoder that was found, by its position among the candidates.
#[derive(Clone, Copy, PartialEq, Eq, Structural, Debug)]
pub struct CodecChoice {
    pub index: usize,
    pub use_v4l2: bool,
}

/// Why there is no decoder.
#[derive(Clone, Copy, PartialEq, Eq, Structural, Debug)]
pub enum CodecError {
    NoHevc,
    NoV4l2Request,
    NoV4l2M2M,
}

impl CodecError {
    pub open spec fn spec_text(self) -> Seq<char> {
        match self {
            CodecError::NoHevc => "no hevc codec"@,
            CodecError::NoV4l2Request => "no v4l2request codec"@,
            CodecError::NoV4l2M2M => "no v4l2m2m codec"@,
        }
    }

    pub fn text(self) -> (r: &'static str)
        ensures
            r@ == (match self {
                CodecError::NoHevc => "no hevc codec"@,
                CodecError::NoV4l2Request => "no v4l2request codec"@,
                CodecError::NoV4l2M2M => "no v4l2m2m codec"@,
            }),
            r@ == self.spec_text(),
    {
        match self {
            CodecError::NoHevc => "no hevc codec",
            CodecError::NoV4l2Request => "no v4l2request codec",
            CodecError::NoV4l2M2M => "no v4l2m2m codec",
        }
    }
}

/// What it is reported as that a backend has no decoder.
pub open spec fn spec_codec_error(backend: Backend) -> CodecError {
    match backend {
        Backend::V4l2Request => CodecError::NoV4l2Request,
        Backend::V4l2M2M => CodecError::NoV4l2M2M,
        _ => CodecError::NoHevc,
    }
}

/// Chooses the best decoder among those that were found. `found` says of each candidate
/// whether it was.
pub fn choose_codec(backend: Backend, found: &Vec<bool>) -> (r: Result<CodecChoice, CodecError>)
    requires
        found@.len() == spec_candidates(backend).len(),
    ensures
        match r {
            Ok(choice) => {
                &&& choice.index < found@.len()
                &&& found@[choice.index as int]
                &&& forall|j: int| 0 <= j < choice.index ==> !found@[j]
                &&& choice.use_v4l2 == spec_candidates(
                    backend,
                )[choice.index as int].spec_uses_v4l2()
            },
            Err(e) => {
                &&& forall|j: int| 0 <= j < found@.len() ==> !found@[j]
                &&& e == (match backend {
                    Backend::V4l2Request => CodecError::NoV4l2Request,
                    Backend::V4l2M2M => CodecError::NoV4l2M2M,
                    _ => CodecError::NoHevc,
                })
                &&& e == spec_codec_error(backend)
            },
        },
{
    let names = candidates(backend);
    let mut i: usize = 0;
    while i < found.len()
        invariant
            i <= found.len(),
            found@.len() == names@.len(),
            names@ == spec_candidates(backend),
            forall|j: int| 0 <= j < i ==> !found@[j],
        decreases found.len() - i,
    {
        if found[i] {
            let use_v4l2 = match names[i] {
                CodecName::Hevc => false,
                _ => true,
            };
            return Ok(CodecChoice { index: i, use_v4l2 });
        }
        i += 1;
    }
    Err(
        match backend {
            Backend::V4l2Request => CodecError::NoV4l2Request,
            Backend::V4l2M2M => CodecError::NoV4l2M2M,
            _ => CodecError::NoHevc,
        },
    )
}

/// The device that frames are decoded on.
#[derive(Debug)]
pub enum HwSetup {
    /// Any device that hands out DMA-BUFs. Decoding fails without it.
    Drm,
    /// The render node at this path, if there is one.
    Vaapi(String),
    /// The processor.
    Software,
}

/// The device's path, where there is one to look for.
pub open spec fn spec_render_node(
    on_card: bool,
    given: Option<Seq<char>>,
    default: Seq<char>,
) -> Option<Seq<char>> {
    if on_card {
        Some(
            match given {
                Some(path) => path,
                None => default,
            },
        )
    } else {
        None
    }
}

/// The render node that a backend decodes on, if it is one.
pub open spec fn spec_backend_node(
    use_v4l2: bool,
    backend: Backend,
    given: Option<Seq<char>>,
) -> Option<Seq<char>> {
    spec_render_node(
        !use_v4l2 && (backend == Backend::Vaapi || backend == Backend::Auto),
        given,
        "/dev/dri/renderD129"@,
    )
}

/// The render node that a decoder without a choice of backends decodes on, if it is one.
pub open spec fn spec_plain_node(use_v4l2: bool, given: Option<Seq<char>>) -> Option<Seq<char>> {
    spec_render_node(!use_v4l2, given, "/dev/dri/renderD128"@)
}

/// The path that a device was asked for by.
pub open spec fn given_path(hw_device: Option<String>) -> Option<Seq<char>> {
    match hw_device {
        Some(path) => Some(path@),
        None => None,
    }
}

/// The path of the render node that frames are decoded on, if it is one.
pub open spec fn render_node_of(setup: HwSetup) -> Option<Seq<char>> {
    match setup {
        HwSetup::Vaapi(path) => Some(path@),
        _ => None,
    }
}

/// Chooses the device for a decoder.
pub fn hw_setup(use_v4l2: bool, backend: Backend, hw_device: Option<String>) -> (r: HwSetup)
    ensures
        if use_v4l2 {
            r is Drm
        } else if backend == Backend::Vaapi || backend == Backend::Auto {
            r matches HwSetup::Vaapi(path) && path@ == (match hw_device {
                Some(given) => given@,
                None => "/dev/dri/renderD129"@,
            })
        } else {
            r is Software
        },
        r is Drm <==> use_v4l2,
        render_node_of(r) == spec_backend_node(use_v4l2, backend, given_path(hw_device)),
{
    if use_v4l2 {
        return HwSetup::Drm;
    }
    match backend {
        Backend::Vaapi | Backend::Auto => match hw_device {
            Some(path) => HwSetup::Vaapi(path),
            None => HwSetup::Vaapi("/dev/dri/renderD129".to_owned()),
        },
        _ => HwSetup::Software,
    }
}

/// The decoder where the card's own is used if there is a video device and the library has one
/// for it.
pub open spec fn spec_plain_codec(use_v4l2: bool, m2m_found: bool, hevc_found: bool) -> Option<
    CodecName,
> {
    if use_v4l2 && m2m_found {
        Some(CodecName::HevcV4l2M2M)
    } else if hevc_found {
        Some(CodecName::Hevc)
    } else {
        None
    }
}

/// Chooses the decoder where the card's own is used if there is a video device and the library
/// has one for it.
pub fn choose_plain_codec(use_v4l2: bool, m2m_found: bool, hevc_found: bool) -> (r: Result<
    CodecName,
    CodecError,
>)
    ensures
        r == (if use_v4l2 && m2m_found {
            Ok(CodecName::HevcV4l2M2M)
        } else if hevc_found {
            Ok(CodecName::Hevc)
        } else {
            Err(CodecError::NoHevc)
        }),
        match r {
            Ok(name) => spec_plain_codec(use_v4l2, m2m_found, hevc_found) == Some(name),
            Err(e) => spec_plain_codec(use_v4l2, m2m_found, hevc_found) is None && e.spec_text()
                == "no hevc codec"@,
        },
{
    if use_v4l2 && m2m_found {
        Ok(CodecName::HevcV4l2M2M)
    } else if hevc_found {
        Ok(CodecName::Hevc)
    } else {
        Err(CodecError::NoHevc)
    }
}

/// The render node for a decoder that does not use a video device.
pub fn plain_hw_setup(use_v4l2: bool, hw_device: Option<String>) -> (r: HwSetup)
    ensures
        if use_v4l2 {
            r is Software
        } else {
            r matches HwSetup::Vaapi(path) && path@ == (match hw_device {
                Some(given) => given@,
                None => "/dev/dri/renderD128"@,
            })
        },
        !(r is Drm),
        render_node_of(r) == spec_plain_node(use_v4l2, given_path(hw_device)),
{
    if use_v4l2 {
        return HwSetup::Software;
    }
    match hw_device {
        Some(path) => HwSetup::Vaapi(path),
        None => HwSetup::Vaapi("/dev/dri/renderD128".to_owned()),
    }
}

/// How a decoded frame gets into DMA-BUFs.
#[derive(Clone, Copy, PartialEq, Eq, Structural, Debug)]
pub enum FrameRoute {
    /// It is there already.
    Reference,
    /// Its surface is mapped.
    MapSurface,
}

/// How a decoded frame gets into DMA-BUFs, if it can.
pub open spec fn spec_frame_route(format: Pixel, on_card: bool) -> Option<FrameRoute> {
    if format == Pixel::DrmPrime {
        Some(FrameRoute::Reference)
    } else if on_card {
        Some(FrameRoute::MapSurface)
    } else {
        None
    }
}

/// Decides how a decoded frame gets into DMA-BUFs.
pub fn frame_route(format: Pixel, on_card: bool) -> (r: Result<FrameRoute, &'static str>)
    ensures
        match r {
            Ok(FrameRoute::Reference) => format == Pixel::DrmPrime,
            Ok(FrameRoute::MapSurface) => format != Pixel::DrmPrime && on_card,
            Err(text) => format != Pixel::DrmPrime && !on_card && text@ == "no hw_frames_ctx"@,
        },
        match r {
            Ok(route) => spec_frame_route(format, on_card) == Some(route),
            Err(_) => spec_frame_route(format, on_card) is None,
        },
{
    if format == Pixel::DrmPrime {
        Ok(FrameRoute::Reference)
    } else if on_card {
        Ok(FrameRoute::MapSurface)
    } else {
        Err("no hw_frames_ctx")
    }
}

/// The layout that a decoder is to deliver among those it offers.
pub open spec fn spec_pick_format(offered: Seq<Pixel>) -> Option<Pixel> {
    if offered.contains(Pixel::DrmPrime) {
        Some(Pixel::DrmPrime)
    } else if offered.len() > 0 {
        Some(offered[0])
    } else {
        None
    }
}

/// Picks the layout that a decoder is to deliver among those it offers: DMA-BUFs if it can,
/// else the first.
pub fn pick_format(offered: &Vec<Pixel>) -> (r: Option<Pixel>)
    ensures
        r == (if offered@.contains(Pixel::DrmPrime) {
            Some(Pixel::DrmPrime)
        } else if offered@.len() > 0 {
            Some(offered@[0])
        } else {
            None
        }),
        r == spec_pick_format(offered@),
{
    let mut i: usize = 0;
    while i < offered.len()
        invariant
            i <= offered.len(),
            forall|j: int| 0 <= j < i ==> offered@[j] != Pixel::DrmPrime,
        decreases offered.len() - i,
    {
        if offered[i] == Pixel::DrmPrime {
            assert(offered@[i as int] == Pixel::DrmPrime);
            return Some(Pixel::DrmPrime);
        }
        i += 1;
    }
    if offered.len() > 0 {
        Some(offered[0])
    } else {
        None
    }
}

/// An automatic choice falls back to software only where no hardware decoder was found.
pub proof fn auto_prefers_hardware(found: Seq<bool>, i: int)
    requires
        found.len() == spec_candidates(Backend::Auto).len(),
        0 <= i < found.len(),
        forall|j: int| 0 <= j < i ==> !found[j],
        !spec_candidates(Backend::Auto)[i].spec_uses_v4l2(),
    ensures
        forall|j: int|
            0 <= j < found.len() && (#[trigger] spec_candidates(
                Backend::Auto,
            )[j]).spec_uses_v4l2() ==> !found[j],
{
    assert(i == 4);
    assert forall|j: int|
        0 <= j < found.len() && (#[trigger] spec_candidates(Backend::Auto)[j]).spec_uses_v4l2()
        implies !found[j] by {
        assert(j < 4);
    }
}

/// A decoder that was chosen for one of the two hardware backends always delivers DMA-BUFs.
pub proof fn hardware_backends_use_v4l2(i: int)
    requires
        0 <= i < 2,
    ensures
        spec_candidates(Backend::V4l2Request)[i].spec_uses_v4l2(),
        spec_candidates(Backend::V4l2M2M)[i].spec_uses_v4l2(),
{
}

proof fn codec_texts()
    ensures
        "hevc_v4l2request"@ == "hevc"@ + "_v4l2request"@,
        "h265_v4l2request"@ == "h265"@ + "_v4l2request"@,
        "hevc_v4l2m2m"@ == "hevc"@ + "_v4l2m2m"@,
        "h265_v4l2m2m"@ == "h265"@ + "_v4l2m2m"@,
        "_v4l2request"@ != "_v4l2m2m"@,
        "hevc"@ != "h265"@,
        "hevc"@.len() == 4,
        "h265"@.len() == 4,
{
    reveal_strlit("hevc_v4l2request");
    reveal_strlit("h265_v4l2request");
    reveal_strlit("hevc_v4l2m2m");
    reveal_strlit("h265_v4l2m2m");
    reveal_strlit("hevc");
    reveal_strlit("h265");
    reveal_strlit("_v4l2request");
    reveal_strlit("_v4l2m2m");
    assert("hevc_v4l2request"@ =~= "hevc"@ + "_v4l2request"@);
    assert("h265_v4l2request"@ =~= "h265"@ + "_v4l2request"@);
    assert("hevc_v4l2m2m"@ =~= "hevc"@ + "_v4l2m2m"@);
    assert("h265_v4l2m2m"@ =~= "h265"@ + "_v4l2m2m"@);
    assert("_v4l2request"@.len() != "_v4l2m2m"@.len());
    assert("hevc"@[1] != "h265"@[1]);
}

/// Every backend tries its own decoders and no others: the names of those of the request
/// backend end in `_v4l2request`, and of the memory-to-memory backend in `_v4l2m2m`. VAAPI and
/// software leave the choice to the media library.
pub proof fn backends_try_their_own_decoders(backend: Backend, i: int)
    requires
        0 <= i < spec_candidates(backend).len(),
    ensures
        ({
            let name = spec_candidates(backend)[i].spec_text();
            &&& backend == Backend::V4l2Request ==> name is Some && (name->0 == "hevc"@
                + "_v4l2request"@ || name->0 == "h265"@ + "_v4l2request"@)
            &&& backend == Backend::V4l2M2M ==> name is Some && (name->0 == "hevc"@ + "_v4l2m2m"@
                || name->0 == "h265"@ + "_v4l2m2m"@)
            &&& backend == Backend::Vaapi || backend == Backend::Software ==> name is None
        }),
{
    codec_texts();
}

/// No decoder of a backend is left out: each hardware backend has both spellings, the newer name
/// first; an automatic choice tries all of them, the request backend before the
/// memory-to-memory one, and the library's own choice last.
pub proof fn backends_try_all_their_decoders()
    ensures
        ({
            let of = |backend: Backend, i: int| spec_candidates(backend)[i].spec_text();
            &&& spec_candidates(Backend::V4l2Request).len() == 2
            &&& of(Backend::V4l2Request, 0) == Some("hevc"@ + "_v4l2request"@)
            &&& of(Backend::V4l2Request, 1) == Some("h265"@ + "_v4l2request"@)
            &&& spec_candidates(Backend::V4l2M2M).len() == 2
            &&& of(Backend::V4l2M2M, 0) == Some("hevc"@ + "_v4l2m2m"@)
            &&& of(Backend::V4l2M2M, 1) == Some("h265"@ + "_v4l2m2m"@)
            &&& spec_candidates(Backend::Vaapi).len() == 1
            &&& spec_candidates(Backend::Software).len() == 1
            &&& spec_candidates(Backend::Auto) =~= spec_candidates(Backend::V4l2Request)
                + spec_candidates(Backend::V4l2M2M) + spec_candidates(Backend::Software)
        }),
{
    codec_texts();
}

/// The decoders that hand out DMA-BUFs are those that are asked for by name.
pub proof fn named_decoders_use_v4l2(name: CodecName)
    ensures
        name.spec_uses_v4l2() <==> name.spec_text() is Some,
{
}

/// Decoded frames have the layout of their format: planes stay planes, with as many of them, and
/// packed formats stay packed. Only the two formats that differ by the order of their chroma
/// planes share a layout.
pub proof fn layouts_follow_formats(format: PixelFormat, other: PixelFormat)
    ensures
        Pixel::spec_of(format) == Pixel::spec_of(other) <==> format == other || (format
            == PixelFormat::I420 && other == PixelFormat::YV12) || (format == PixelFormat::YV12
            && other == PixelFormat::I420),
        match Pixel::spec_of(format) {
            Pixel::Yuv420P => format == PixelFormat::I420 || format == PixelFormat::YV12,
            Pixel::Yuv422P => format == PixelFormat::I422,
            Pixel::Yuv444P => format == PixelFormat::I444,
            Pixel::Rgb24 => format == PixelFormat::RGB,
            Pixel::Bgra => format == PixelFormat::BGRA,
            Pixel::Rgba => format == PixelFormat::RGBA,
            Pixel::Nv12 => format == PixelFormat::NV12,
            Pixel::Nv21 => format == PixelFormat::NV21,
            Pixel::Ayuv64Le => format == PixelFormat::AYUV,
            Pixel::Yuyv422 => format == PixelFormat::YUY2,
            Pixel::DrmPrime | Pixel::Vaapi | Pixel::Other(_) => false,
        },
{
}

/// No two backends have the same name, and these are the five names.
pub proof fn backends_are_named(a: Backend, b: Backend)
    ensures
        a.spec_name() == b.spec_name() <==> a == b,
        a.spec_name() == "auto"@ <==> a == Backend::Auto,
        a.spec_name() == "vaapi"@ <==> a == Backend::Vaapi,
        a.spec_name() == "v4l2request"@ <==> a == Backend::V4l2Request,
        a.spec_name() == "v4l2m2m"@ <==> a == Backend::V4l2M2M,
        a.spec_name() == "software"@ <==> a == Backend::Software,
{
    reveal_strlit("auto");
    reveal_strlit("vaapi");
    reveal_strlit("v4l2request");
    reveal_strlit("v4l2m2m");
    reveal_strlit("software");
    assert("auto"@.len() == 4 && "vaapi"@.len() == 5 && "v4l2request"@.len() == 11
        && "v4l2m2m"@.len() == 7 && "software"@.len() == 8);
}

/// A decoder delivers DMA-BUFs wherever it offers them, and otherwise what it offers first. It is
/// never asked for what it does not offer.
pub proof fn dmabufs_are_picked_where_offered(offered: Seq<Pixel>, i: int)
    requires
        0 <= i < offered.len(),
    ensures
        spec_pick_format(offered) is Some,
        offered.contains(spec_pick_format(offered)->0),
        offered[i] == Pixel::DrmPrime ==> spec_pick_format(offered) == Some(Pixel::DrmPrime),
        spec_pick_format(offered) == Some(Pixel::DrmPrime) || spec_pick_format(offered) == Some(
            offered[0],
        ),
        spec_pick_format(Seq::<Pixel>::empty()) is None,
{
    assert(offered.contains(offered[0]));
    assert(!Seq::<Pixel>::empty().contains(Pixel::DrmPrime));
}

/// A render node is used where no video device is, by the backends that can: the one that was
/// asked for, and where none was, the second node for a choice of backends and the first without.
pub proof fn render_nodes_are_those_asked_for(
    use_v4l2: bool,
    backend: Backend,
    given: Option<Seq<char>>,
)
    ensures
        ({
            let node = spec_backend_node(use_v4l2, backend, given);
            let plain = spec_plain_node(use_v4l2, given);
            &&& use_v4l2 || !(backend is Vaapi || backend is Auto) <==> node is None
            &&& node is Some && given is Some ==> node == given
            &&& node is Some && given is None ==> node->0 == "/dev/dri/"@ + "renderD129"@
            &&& plain is None <==> use_v4l2
            &&& plain is Some && given is Some ==> plain == given
            &&& plain is Some && given is None ==> plain->0 == "/dev/dri/"@ + "renderD128"@
        }),
{
    reveal_strlit("/dev/dri/");
    reveal_strlit("renderD128");
    reveal_strlit("renderD129");
    reveal_strlit("/dev/dri/renderD128");
    reveal_strlit("/dev/dri/renderD129");
    assert("/dev/dri/renderD128"@ =~= "/dev/dri/"@ + "renderD128"@);
    assert("/dev/dri/renderD129"@ =~= "/dev/dri/"@ + "renderD129"@);
}

/// The card's own decoder is preferred where there is a video device, and the library's own choice
/// steps in for it; there is no decoder only where both are missing.
pub proof fn plain_decoders_prefer_the_card(use_v4l2: bool, m2m_found: bool, hevc_found: bool)
    ensures
        ({
            let r = spec_plain_codec(use_v4l2, m2m_found, hevc_found);
            &&& r is None <==> !hevc_found && !(use_v4l2 && m2m_found)
            &&& use_v4l2 && m2m_found ==> r is Some && r->0.spec_text() == Some("hevc_v4l2m2m"@)
            &&& !(use_v4l2 && m2m_found) && hevc_found ==> r is Some && r->0.spec_text() is None
        }),
{
}

/// A backend without a decoder is named by its own message; all but the two hardware backends
/// miss the standard's decoder.
pub proof fn missing_decoders_are_named(backend: Backend)
    ensures
        spec_codec_error(backend).spec_text() == "no "@ + "v4l2request"@ + " codec"@ <==> backend
            == Backend::V4l2Request,
        spec_codec_error(backend).spec_text() == "no "@ + "v4l2m2m"@ + " codec"@ <==> backend
            == Backend::V4l2M2M,
        spec_codec_error(backend).spec_text() == "no "@ + "hevc"@ + " codec"@ <==> backend
            == Backend::Auto || backend == Backend::Vaapi || backend == Backend::Software,
{
    reveal_strlit("no ");
    reveal_strlit(" codec");
    reveal_strlit("v4l2request");
    reveal_strlit("v4l2m2m");
    reveal_strlit("hevc");
    reveal_strlit("no v4l2request codec");
    reveal_strlit("no v4l2m2m codec");
    reveal_strlit("no hevc codec");
    assert("no v4l2request codec"@ =~= "no "@ + "v4l2request"@ + " codec"@);
    assert("no v4l2m2m codec"@ =~= "no "@ + "v4l2m2m"@ + " codec"@);
    assert("no hevc codec"@ =~= "no "@ + "hevc"@ + " codec"@);
    assert("no v4l2request codec"@.len() == 20 && "no v4l2m2m codec"@.len() == 16
        && "no hevc codec"@.len() == 13);
}

/// A frame that is in DMA-BUFs already is never mapped; any other one is where it lies on the
/// card, and is refused where it does not.
pub proof fn frames_are_mapped_where_needed(format: Pixel, on_card: bool)
    ensures
        spec_frame_route(format, on_card) == Some(FrameRoute::Reference) <==> format is DrmPrime,
        spec_frame_route(format, on_card) == Some(FrameRoute::MapSurface) <==> on_card && !(
        format is DrmPrime),
        spec_frame_route(format, on_card) is None <==> !on_card && !(format is DrmPrime),
{
}

/// Options are accepted where the output and the backend have one of their names and a raw output
/// has a format of a known name. Only an unknown format is reported as such, and before an unknown
/// backend is.
pub proof fn options_are_accepted_by_name(
    output: Seq<char>,
    format: Option<Seq<char>>,
    decoder: Seq<char>,
    known: PixelFormat,
    backend: Backend,
)
    ensures
        output == "dmabuf"@ && decoder == backend.spec_name() ==> option_error(
            output,
            format,
            decoder,
        ) is None,
        output == "raw"@ && format == Some(known.spec_name()) && decoder == backend.spec_name()
            ==> option_error(output, format, decoder) is None,
        option_error(output, format, decoder) == Some(OptionError::BadPixelFormat) <==> output
            == "raw"@ && format is Some && forall|f: PixelFormat| #[trigger]
            f.spec_name() != format->0,
        output != "dmabuf"@ && output != "raw"@ ==> option_error(output, format, decoder) == Some(
            OptionError::BadArg,
        ),
        output == "raw"@ && format is None ==> option_error(output, format, decoder) == Some(
            OptionError::BadArg,
        ),
        option_error(output, format, decoder) is None ==> output == "dmabuf"@ || output == "raw"@
            && format is Some,
        option_error(output, format, decoder) is None ==> exists|b: Backend| #[trigger]
            b.spec_name() == decoder,
{
    output_names_differ();
}

/// Every name of a backend or format is found: a name that belongs to one gives it, and there is
/// no answer only for a name that belongs to none.
pub proof fn names_are_found(
    name: Seq<char>,
    backend: Backend,
    format: PixelFormat,
    found: Option<Backend>,
    pixel: Option<Pixel>,
)
    ensures
        Backend::is_named(found, backend.spec_name()) <==> found == Some(backend),
        is_pixel_of_name(pixel, format.spec_name()) <==> pixel == Some(Pixel::spec_of(format)),
        Backend::is_named(None, name) ==> backend.spec_name() != name,
        is_pixel_of_name(None, name) ==> format.spec_name() != name,
        is_raw_target("raw"@, Some(format.spec_name()), pixel) <==> pixel == Some(
            Pixel::spec_of(format),
        ),
        name != "raw"@ ==> (is_raw_target(name, Some(format.spec_name()), pixel)
            <==> pixel is None),
        !is_raw_target("raw"@, None, pixel),
{
    if found is Some {
        backends_are_named(found->0, backend);
    }
    if pixel is Some {
        if is_pixel_of_name(pixel, format.spec_name()) {
            let same = choose|f: PixelFormat| #[trigger]
                f.spec_name() == format.spec_name() && pixel->0 == Pixel::spec_of(f);
            crate::pixel_format::names_are_distinct(same, format);
        }
    }
}

} // verus!
