use drm_fourcc::DrmFourcc;
use video_transcode::fourcc::{self, FourccError};
use video_transcode::pixel_format::PixelFormat;
use video_transcode::text;

fn all_formats() -> Vec<(PixelFormat, &'static str, DrmFourcc)> {
    vec![
        (PixelFormat::I420, "I420", DrmFourcc::Yuv420),
        (PixelFormat::I422, "I422", DrmFourcc::Yuv422),
        (PixelFormat::I444, "I444", DrmFourcc::Yuv444),
        (PixelFormat::RGB, "RGB", DrmFourcc::Rgb888),
        (PixelFormat::BGRA, "BGRA", DrmFourcc::Bgra8888),
        (PixelFormat::RGBA, "RGBA", DrmFourcc::Rgba8888),
        (PixelFormat::NV12, "NV12", DrmFourcc::Nv12),
        (PixelFormat::NV21, "NV21", DrmFourcc::Nv21),
        (PixelFormat::YV12, "YV12", DrmFourcc::Yvu420),
        (PixelFormat::AYUV, "AYUV", DrmFourcc::Ayuv),
        (PixelFormat::YUY2, "YUY2", DrmFourcc::Yuyv),
    ]
}

#[test]
fn formats_have_the_codes_of_the_kernel() {
    for (format, _, code) in all_formats() {
        assert_eq!(format.fourcc(), code as u32);
    }
    assert_eq!(fourcc::FOURCC_R8, DrmFourcc::R8 as u32);
    assert_eq!(fourcc::FOURCC_GR88, DrmFourcc::Gr88 as u32);
    assert_eq!(fourcc::FOURCC_R16, DrmFourcc::R16 as u32);
    assert_eq!(fourcc::FOURCC_GR1616, DrmFourcc::Gr1616 as u32);
    assert_eq!(fourcc::FOURCC_P010, DrmFourcc::P010 as u32);
}

#[test]
fn formats_are_found_by_name() {
    for (format, name, _) in all_formats() {
        assert_eq!(PixelFormat::from_name(name), Some(format));
        assert_eq!(PixelFormat::from_str(name), Some(format));
        assert_eq!(PixelFormat::from_str(&name.to_lowercase()), Some(format));
    }
    assert_eq!(PixelFormat::from_name("nv12"), None);
    assert_eq!(PixelFormat::from_str("nV12"), Some(PixelFormat::NV12));
    assert_eq!(PixelFormat::from_str("NV12 "), None);
    assert_eq!(PixelFormat::from_str(""), None);
    assert_eq!(PixelFormat::from_str("rgb\u{df}"), None);
}

#[test]
fn frame_sizes() {
    assert_eq!(PixelFormat::I420.frame_size(1920, 1080), 3_110_400);
    assert_eq!(PixelFormat::NV12.frame_size(1920, 1080), 3_110_400);
    assert_eq!(PixelFormat::NV21.frame_size(4, 4), 24);
    assert_eq!(PixelFormat::YV12.frame_size(4, 4), 24);
    assert_eq!(PixelFormat::I422.frame_size(4, 4), 32);
    assert_eq!(PixelFormat::I444.frame_size(4, 4), 48);
    assert_eq!(PixelFormat::RGB.frame_size(4, 4), 48);
    assert_eq!(PixelFormat::BGRA.frame_size(4, 4), 64);
    assert_eq!(PixelFormat::RGBA.frame_size(4, 4), 64);
    assert_eq!(PixelFormat::AYUV.frame_size(4, 4), 64);
    assert_eq!(PixelFormat::YUY2.frame_size(4, 4), 32);
    assert_eq!(PixelFormat::RGB.checked_frame_size(640, 480), Some(921_600));
}

#[test]
fn buffer_heights_and_depths() {
    assert_eq!(PixelFormat::I420.buffer_height(1080), 2160);
    assert_eq!(PixelFormat::NV12.buffer_height(1080), 1620);
    assert_eq!(PixelFormat::I422.buffer_height(10), 30);
    assert_eq!(PixelFormat::I444.buffer_height(10), 30);
    assert_eq!(PixelFormat::RGB.buffer_height(10), 10);
    assert_eq!(PixelFormat::NV12.bpp(), 8);
    assert_eq!(PixelFormat::YUY2.bpp(), 16);
    assert_eq!(PixelFormat::RGB.bpp(), 24);
    assert_eq!(PixelFormat::AYUV.bpp(), 32);
    assert_eq!(PixelFormat::I444.num_planes(), 3);
    assert_eq!(PixelFormat::NV21.num_planes(), 2);
    assert_eq!(PixelFormat::YUY2.num_planes(), 1);
}

#[test]
fn only_i420_is_scanned_out_as_something_else() {
    for (format, _, _) in all_formats() {
        let expected = if format == PixelFormat::I420 { PixelFormat::NV12 } else { format };
        assert_eq!(format.fb_format(), expected);
        assert_eq!(format.fb_format().fb_format(), format.fb_format());
        assert_eq!(format.fb_format().frame_size(64, 32), format.frame_size(64, 32));
    }
}

#[test]
fn numbers_and_joined_text() {
    assert_eq!(text::decimal(0), "0");
    assert_eq!(text::decimal(10), "10");
    assert_eq!(text::decimal(u64::MAX), "18446744073709551615");
    assert_eq!(text::join("ab", "cd"), "abcd");
    assert!(text::same_text("abc", "abc"));
    assert!(!text::same_text("abc", "abd"));
}

#[test]
fn codes_of_layers() {
    let r8 = DrmFourcc::R8 as u32;
    let gr88 = DrmFourcc::Gr88 as u32;
    let r16 = DrmFourcc::R16 as u32;
    let gr1616 = DrmFourcc::Gr1616 as u32;
    let nv12 = DrmFourcc::Nv12 as u32;
    let p010 = DrmFourcc::P010 as u32;
    assert_eq!(fourcc::derive_fourcc(1, nv12, 0, false), Ok(nv12));
    assert_eq!(fourcc::derive_fourcc(1, DrmFourcc::Xrgb8888 as u32, 0, false), Ok(875713112));
    assert_eq!(
        fourcc::derive_fourcc(1, 7, 0, false),
        Err(FourccError::UnsupportedFourcc(7))
    );
    assert_eq!(fourcc::derive_fourcc(2, r8, gr88, false), Ok(nv12));
    assert_eq!(fourcc::derive_fourcc(2, gr88, r8, false), Ok(nv12));
    assert_eq!(
        fourcc::derive_fourcc(2, r8, r8, false),
        Err(FourccError::UnsupportedLayers(r8, r8))
    );
    assert_eq!(fourcc::derive_fourcc(2, r8, r8, true), Ok(nv12));
    assert_eq!(fourcc::derive_fourcc(2, r16, gr1616, true), Ok(p010));
    assert_eq!(fourcc::derive_fourcc(2, gr1616, r16, true), Ok(p010));
    assert_eq!(
        fourcc::derive_fourcc(2, r16, gr1616, false),
        Err(FourccError::UnsupportedLayers(r16, gr1616))
    );
    assert_eq!(
        fourcc::derive_fourcc(3, nv12, nv12, true),
        Err(FourccError::UnsupportedLayerCount(3))
    );
    assert_eq!(fourcc::frame_fourcc(1, 7, 0, Some(7), false), Ok(7));
    assert_eq!(
        fourcc::frame_fourcc(1, nv12, 0, None, false),
        Err(FourccError::UnsupportedFourcc(nv12))
    );
}

#[test]
fn unknown_codes_are_not_recognised() {
    assert_eq!(fourcc::check_fourcc(DrmFourcc::Nv12 as u32), Some(842094158));
    assert_eq!(fourcc::check_fourcc(DrmFourcc::Argb8888 as u32), Some(DrmFourcc::Argb8888 as u32));
    assert_eq!(fourcc::check_fourcc(0), None);
    assert_eq!(fourcc::check_fourcc(828601953), None);
}
