use video_transcode::conversion::{conversion, frame_fits, write_frame, Conversion};
use video_transcode::copy;
use video_transcode::dumb_buffer::{clear_frame, dumb_request, raw_modifier, DumbWrapper};
use video_transcode::gradient::draw_gradient;
use video_transcode::pixel_format::PixelFormat;

fn bytes(n: usize) -> Vec<u8> {
    (0..n).map(|i| (i % 251) as u8 + 1).collect()
}

#[test]
fn plane_rows_start_a_pitch_apart() {
    let mut dst = vec![0u8; 12];
    copy::copy_plane(&[1, 2, 3, 4, 5, 6], &mut dst, 5, 2, 3);
    assert_eq!(dst, vec![1, 2, 0, 0, 0, 3, 4, 0, 0, 0, 5, 6]);
}

#[test]
fn i420_planes_lie_below_each_other() {
    let src = bytes(4 * 2 + 2 + 2);
    let mut dst = vec![0u8; 6 * 4];
    copy::copy_i420_frame(&src, &mut dst, 6, 4, 2);
    assert_eq!(&dst[0..4], &src[0..4]);
    assert_eq!(&dst[6..10], &src[4..8]);
    assert_eq!(&dst[12..14], &src[8..10]);
    assert_eq!(&dst[18..20], &src[10..12]);
    assert_eq!(dst[4], 0);
    assert_eq!(dst[14], 0);
    let mut yv12 = vec![0u8; 6 * 4];
    copy::copy_yv12_frame(&src, &mut yv12, 6, 4, 2);
    assert_eq!(yv12, dst);
}

#[test]
fn other_planar_frames() {
    let src = bytes(4 * 2 * 3);
    let mut i422 = vec![0u8; 4 * 6];
    copy::copy_i422_frame(&src[0..16], &mut i422, 4, 4, 2);
    assert_eq!(&i422[0..8], &src[0..8]);
    assert_eq!(&i422[8..10], &src[8..10]);
    assert_eq!(&i422[12..14], &src[10..12]);
    assert_eq!(&i422[16..18], &src[12..14]);
    let mut i444 = vec![0u8; 4 * 6];
    copy::copy_i444_frame(&src, &mut i444, 4, 4, 2);
    assert_eq!(i444, src);
    let mut nv12 = vec![0u8; 4 * 3];
    copy::copy_nv12_frame(&src[0..12], &mut nv12, 4, 4, 2);
    assert_eq!(&nv12[..], &src[0..12]);
}

#[test]
fn packed_rows() {
    let src = bytes(2 * 2 * 3);
    let mut dst = vec![0u8; 16];
    copy::copy_packed_frame(&src, &mut dst, 8, 2, 2, 3);
    assert_eq!(&dst[0..6], &src[0..6]);
    assert_eq!(&dst[8..14], &src[6..12]);
    assert_eq!(dst[6], 0);
}

#[test]
fn frames_are_copied_by_format() {
    for (format, rows) in [
        (PixelFormat::I420, 4),
        (PixelFormat::YV12, 4),
        (PixelFormat::I422, 6),
        (PixelFormat::I444, 6),
        (PixelFormat::NV12, 3),
        (PixelFormat::NV21, 3),
        (PixelFormat::RGB, 2),
        (PixelFormat::BGRA, 2),
        (PixelFormat::RGBA, 2),
        (PixelFormat::AYUV, 2),
        (PixelFormat::YUY2, 2),
    ] {
        let bytes_per_pixel = format.bpp() as usize / 8;
        assert_eq!(format.buffer_height(2) as usize, rows);
        let src = bytes(format.frame_size(4, 2));
        let pitch = 4 * bytes_per_pixel;
        let mut dst = vec![0u8; pitch * rows];
        copy::copy_frame(&src, &mut dst, pitch, 4, 2, format);
        assert_eq!(&dst[0..pitch], &src[0..pitch]);
        assert_eq!(&dst[pitch..2 * pitch], &src[pitch..2 * pitch]);
    }
}

#[test]
fn chroma_samples_are_interleaved() {
    let src = vec![1, 2, 3, 4, 5, 6, 7, 8, 10, 11, 20, 21];
    let mut dst = vec![0u8; 5 * 3];
    copy::copy_i420_to_nv12(&src, &mut dst, 5, 4, 2);
    assert_eq!(dst, vec![1, 2, 3, 4, 0, 5, 6, 7, 8, 0, 10, 20, 11, 21, 0]);
}

#[test]
fn conversions() {
    assert_eq!(conversion(PixelFormat::RGB, PixelFormat::RGB), Some(Conversion::Copy));
    assert_eq!(conversion(PixelFormat::I420, PixelFormat::NV12), Some(Conversion::Interleave));
    assert_eq!(conversion(PixelFormat::NV12, PixelFormat::I420), None);
    assert_eq!(conversion(PixelFormat::YV12, PixelFormat::NV12), None);
    for format in [PixelFormat::I420, PixelFormat::YUY2, PixelFormat::NV21] {
        assert!(conversion(format, format.fb_format()).is_some());
    }
}

#[test]
fn frames_that_fit_are_told_from_those_that_do_not() {
    let copy = Conversion::Copy;
    assert!(frame_fits(24, 24, 4, 4, 4, PixelFormat::NV12, copy));
    assert!(!frame_fits(23, 24, 4, 4, 4, PixelFormat::NV12, copy));
    assert!(!frame_fits(24, 23, 4, 4, 4, PixelFormat::NV12, copy));
    assert!(frame_fits(24, 58, 8, 4, 4, PixelFormat::I420, copy));
    assert!(!frame_fits(24, 57, 8, 4, 4, PixelFormat::I420, copy));
    assert!(frame_fits(48, 48, 4, 4, 4, PixelFormat::I444, copy));
    assert!(!frame_fits(48, 47, 4, 4, 4, PixelFormat::I444, copy));
    assert!(frame_fits(32, 46, 4, 4, 4, PixelFormat::I422, copy));
    assert!(!frame_fits(32, 45, 4, 4, 4, PixelFormat::I422, copy));
    assert!(frame_fits(64, 64, 16, 4, 4, PixelFormat::RGBA, copy));
    assert!(!frame_fits(64, 63, 16, 4, 4, PixelFormat::RGBA, copy));
    let interleave = Conversion::Interleave;
    assert!(frame_fits(24, 24, 4, 4, 4, PixelFormat::I420, interleave));
    assert!(!frame_fits(24, 23, 4, 4, 4, PixelFormat::I420, interleave));
    assert!(!frame_fits(23, 24, 4, 4, 4, PixelFormat::I420, interleave));
    assert!(frame_fits(0, 0, 0, 0, 0, PixelFormat::I420, interleave));
    assert!(!frame_fits(usize::MAX, usize::MAX, usize::MAX, u32::MAX, u32::MAX, PixelFormat::RGB, copy));
}

#[test]
fn written_frames() {
    let src = bytes(12);
    let mut copied = vec![0u8; 12];
    write_frame(&src, &mut copied, 4, 4, 2, PixelFormat::NV12, Conversion::Copy);
    assert_eq!(copied, src);
    let mut interleaved = vec![0u8; 12];
    write_frame(&src, &mut interleaved, 4, 4, 2, PixelFormat::I420, Conversion::Interleave);
    assert_eq!(&interleaved[0..8], &src[0..8]);
    assert_eq!(interleaved[8..12], [src[8], src[10], src[9], src[11]]);
}

#[test]
fn buffers_are_allocated_for_all_planes() {
    let request = dumb_request(1920, 1080, PixelFormat::NV12);
    assert_eq!((request.width, request.rows, request.bpp), (1920, 1620, 8));
    assert_eq!(request.fourcc, PixelFormat::NV12.fourcc());
    let request = dumb_request(640, 480, PixelFormat::RGB);
    assert_eq!((request.width, request.rows, request.bpp), (640, 480, 24));
}

#[test]
fn cleared_pixels_are_zero_and_padding_stays() {
    let mut mapping = vec![9u8; 6 * 3];
    clear_frame(&mut mapping, 6, 4, 2, PixelFormat::NV12);
    for row in 0..3 {
        assert_eq!(mapping[row * 6..row * 6 + 4], [0, 0, 0, 0]);
        assert_eq!(mapping[row * 6 + 4..row * 6 + 6], [9, 9]);
    }
}

#[test]
fn column_format_on_the_raspberry_pi_only() {
    assert_eq!(raw_modifier(true, true), Some(0x0700_0000_0000_0004));
    assert_eq!(raw_modifier(true, false), None);
    assert_eq!(raw_modifier(false, true), None);
}

#[test]
fn planes_of_a_dumb_buffer() {
    let mut wrapper = DumbWrapper {
        handle: 7,
        pitch: 64,
        w: 60,
        h: 10,
        fmt: PixelFormat::I420,
        modifier: None,
    };
    assert_eq!(wrapper.size(), (60, 10));
    assert_eq!(wrapper.format(), PixelFormat::I420.fourcc());
    assert_eq!(wrapper.pitches(), [64, 64, 64, 0]);
    assert_eq!(wrapper.handles(), [Some(7), Some(7), Some(7), None]);
    assert_eq!(wrapper.offsets(), [0, 640, 960, 0]);
    assert_eq!(wrapper.modifier(), None);
    assert!(!wrapper.with_modifiers());
    assert!(wrapper.check_offsets());
    assert!(!DumbWrapper { pitch: 1 << 31, h: 2, ..wrapper }.check_offsets());
    assert!(DumbWrapper { pitch: 1 << 31, h: 2, fmt: PixelFormat::RGB, ..wrapper }.check_offsets());
    wrapper.fmt = PixelFormat::I444;
    assert_eq!(wrapper.offsets(), [0, 640, 1280, 0]);
    wrapper.fmt = PixelFormat::NV12;
    wrapper.modifier = Some(4);
    assert_eq!(wrapper.pitches(), [64, 64, 0, 0]);
    assert_eq!(wrapper.handles(), [Some(7), Some(7), None, None]);
    assert_eq!(wrapper.offsets(), [0, 640, 0, 0]);
    assert!(wrapper.with_modifiers());
    wrapper.fmt = PixelFormat::RGB;
    assert_eq!(wrapper.pitches(), [64, 0, 0, 0]);
    assert_eq!(wrapper.handles(), [Some(7), None, None, None]);
    assert_eq!(wrapper.offsets(), [0, 0, 0, 0]);
}

#[test]
fn gradient_runs_over_the_frame() {
    let mut buf = vec![1u8; 16 * 2];
    draw_gradient(&mut buf, 16, 3, 2);
    assert_eq!(&buf[0..4], &[0x80, 0, 0, 0]);
    assert_eq!(&buf[24..28], &[0x80, 127, 170, 0]);
    assert_eq!(buf[12], 1);
}
