use drm_fourcc::DrmFourcc;
use video_transcode::decode::{
    packet_timestamp, BatchPolicy, DecodeBatch, Metadata, Receive, Received, NO_PTS,
};
use video_transcode::decoder::{
    candidates, choose_codec, choose_plain_codec, device_path, frame_route, hw_setup,
    parse_options, pick_format, pixel_from_atom, plain_hw_setup, Backend, CodecError, CodecName,
    FrameRoute, HwSetup, OptionError, OutputMode, Pixel,
};
use video_transcode::dmabuf::{Descriptor, Layer, Modifier, Object, Plane};
use video_transcode::export::{
    DmabufExport, DrmFrameDescriptor, DrmLayer, DrmObject, DrmPlane, ExportError,
    DRM_FORMAT_MOD_INVALID,
};
use video_transcode::fourcc::FourccError;
use video_transcode::h265::{
    self, atom_from_pixel, raw_target, Decoder, FrameShape, RawError, RawOutcome, RawStep,
    ScalerPolicy, ScalerSpec,
};
use video_transcode::lease::{Admission, FrozenTerm, Keepalive};
use video_transcode::prime_export::{check_header, PlaneSource, PrimeExport, PrimeExportError};

const R8: u32 = DrmFourcc::R8 as u32;
const GR88: u32 = DrmFourcc::Gr88 as u32;
const NV12: u32 = DrmFourcc::Nv12 as u32;

fn drm_plane(object_index: i32, offset: isize, pitch: isize) -> DrmPlane {
    DrmPlane { object_index, offset, pitch }
}

fn drm_layer(format: u32, planes: &[DrmPlane]) -> DrmLayer {
    let mut table = [drm_plane(0, 0, 0); 4];
    table[..planes.len()].copy_from_slice(planes);
    DrmLayer { format, nb_planes: planes.len() as i32, planes: table }
}

fn frame(objects: &[DrmObject], layers: &[DrmLayer]) -> DrmFrameDescriptor {
    let mut object_table = [DrmObject { fd: -1, size: 0, format_modifier: 0 }; 4];
    object_table[..objects.len()].copy_from_slice(objects);
    let mut layer_table = [drm_layer(0, &[]); 4];
    layer_table[..layers.len()].copy_from_slice(layers);
    DrmFrameDescriptor {
        nb_objects: objects.len() as i32,
        objects: object_table,
        nb_layers: layers.len() as i32,
        layers: layer_table,
    }
}

fn object(fd: i32, format_modifier: u64) -> DrmObject {
    DrmObject { fd, size: 8192, format_modifier }
}

fn begin(desc: DrmFrameDescriptor) -> DmabufExport {
    DmabufExport::new(desc, false).ok().unwrap()
}

#[test]
fn two_layers_become_one_with_luma_first() {
    let desc = frame(
        &[object(3, 9), object(4, 9)],
        &[
            drm_layer(GR88, &[drm_plane(1, 64, 32)]),
            drm_layer(R8, &[drm_plane(0, 16, 48)]),
        ],
    );
    let mut export = begin(desc);
    assert_eq!(export.next_source(), Some(Ok(3)));
    export.push_duplicate(13).unwrap();
    assert_eq!(export.next_source(), Some(Ok(4)));
    export.push_duplicate(14).unwrap();
    assert_eq!(export.next_source(), None);
    let exported = export.finish(64, 32).unwrap();
    assert_eq!(exported.modifier, Modifier::Explicit(9));
    let descriptor = exported.descriptor;
    assert_eq!(descriptor.version, 1);
    assert_eq!(
        descriptor.objects,
        vec![
            Object { fd: 13, size: 8192, modifier: Modifier::Explicit(9) },
            Object { fd: 14, size: 8192, modifier: Modifier::Explicit(9) },
        ]
    );
    assert_eq!(descriptor.layers.len(), 1);
    assert_eq!(descriptor.layers[0].fourcc, NV12);
    assert_eq!(
        descriptor.layers[0].planes,
        vec![
            Plane { object_index: 0, offset: 16, pitch: 48 },
            Plane { object_index: 1, offset: 64, pitch: 32 },
        ]
    );
}

#[test]
fn single_layer_keeps_its_planes() {
    let desc = frame(
        &[object(3, 0)],
        &[drm_layer(NV12, &[drm_plane(0, 0, 64), drm_plane(0, 4096, 64)])],
    );
    let mut export = begin(desc);
    export.push_duplicate(20).unwrap();
    let exported = export.finish(64, 32).unwrap();
    assert_eq!((exported.width, exported.height), (64, 32));
    assert_eq!(exported.modifier, Modifier::Explicit(0));
    assert_eq!(exported.descriptor.objects[0].modifier, Modifier::Explicit(0));
    assert_eq!(exported.descriptor.layers[0].planes[1].offset, 4096);
}

#[test]
fn objects_without_an_explicit_modifier_are_refused() {
    assert_eq!(DRM_FORMAT_MOD_INVALID, (1u64 << 56) - 1);
    let nv12 = drm_layer(NV12, &[drm_plane(0, 0, 64), drm_plane(0, 4096, 64)]);
    let mut export = begin(frame(&[object(3, DRM_FORMAT_MOD_INVALID)], &[nv12]));
    assert_eq!(export.push_duplicate(20), Err(ExportError::ImplicitModifier(0)));
    assert_eq!(export.push_duplicate(-1), Err(ExportError::DuplicateFailed(0)));
    let mut export = begin(frame(&[object(3, 9), object(4, DRM_FORMAT_MOD_INVALID)], &[nv12]));
    assert_eq!(export.push_duplicate(20), Ok(()));
    assert_eq!(export.push_duplicate(21), Err(ExportError::ImplicitModifier(1)));
}

#[test]
fn frames_that_are_not_exported() {
    let nv12 = drm_layer(NV12, &[drm_plane(0, 0, 64), drm_plane(0, 4096, 64)]);
    let error = |desc| DmabufExport::new(desc, false).err().unwrap();
    assert_eq!(error(frame(&[], &[nv12])), ExportError::InvalidCounts(0, 1));
    let mut many = frame(&[object(3, 0)], &[nv12]);
    many.nb_layers = 5;
    assert_eq!(error(many), ExportError::InvalidCounts(1, 5));
    assert_eq!(
        error(frame(&[object(3, 0)], &[drm_layer(7, &[])])),
        ExportError::Fourcc(FourccError::UnsupportedFourcc(7))
    );
    assert_eq!(
        error(frame(&[object(3, 0)], &[drm_layer(DrmFourcc::P010 as u32, &[])])),
        ExportError::NotNv12
    );
    let pi = frame(&[object(3, 0)], &[drm_layer(R8, &[]), drm_layer(R8, &[])]);
    assert_eq!(error(pi), ExportError::Fourcc(FourccError::UnsupportedLayers(R8, R8)));
    assert!(DmabufExport::new(pi, true).is_ok());
}

#[test]
fn objects_are_taken_over_one_by_one() {
    let nv12 = drm_layer(NV12, &[drm_plane(0, 0, 64), drm_plane(1, 0, 64)]);
    let export = begin(frame(&[object(-1, 0)], &[nv12]));
    assert_eq!(export.next_source(), Some(Err(ExportError::NegativeFd(0))));
    let mut export = begin(frame(&[object(3, 0), object(4, 1)], &[nv12]));
    assert_eq!(export.push_duplicate(-1), Err(ExportError::DuplicateFailed(0)));
    assert_eq!(export.push_duplicate(13), Ok(()));
    assert_eq!(export.push_duplicate(14), Err(ExportError::DifferentModifiers));
}

#[test]
fn planes_that_are_not_exported() {
    let finish = |layer: DrmLayer| {
        let mut export = begin(frame(&[object(3, 0)], &[layer]));
        export.push_duplicate(13).unwrap();
        export.finish(64, 32).map(|_| ()).unwrap_err()
    };
    let good = drm_plane(0, 0, 64);
    assert_eq!(finish(drm_layer(NV12, &[])), ExportError::InvalidPlaneCount(0, 0));
    let mut negative = drm_layer(NV12, &[good]);
    negative.nb_planes = -1;
    assert_eq!(finish(negative), ExportError::InvalidPlaneCount(0, -1));
    assert_eq!(finish(drm_layer(NV12, &[good])), ExportError::WrongPlaneCount(1));
    assert_eq!(finish(drm_layer(NV12, &[good, good, good])), ExportError::WrongPlaneCount(3));
    assert_eq!(
        finish(drm_layer(NV12, &[good, drm_plane(-1, -1, -1)])),
        ExportError::ObjectIndexOverflow
    );
    assert_eq!(finish(drm_layer(NV12, &[drm_plane(0, -1, -1)])), ExportError::PitchOverflow);
    assert_eq!(
        finish(drm_layer(NV12, &[drm_plane(0, 0, 1 << 32), good])),
        ExportError::PitchOverflow
    );
    assert_eq!(finish(drm_layer(NV12, &[drm_plane(0, -1, 1)])), ExportError::OffsetOverflow);
    assert_eq!(
        finish(drm_layer(NV12, &[good, drm_plane(0, 8192, 64)])),
        ExportError::InvalidDescriptor
    );
    assert_eq!(
        finish(drm_layer(NV12, &[good, drm_plane(1, 0, 64)])),
        ExportError::InvalidDescriptor
    );
    assert_eq!(
        finish(drm_layer(NV12, &[good, drm_plane(0, 0, 0)])),
        ExportError::InvalidDescriptor
    );
}

fn descriptor() -> Descriptor {
    Descriptor {
        version: 1,
        objects: vec![Object { fd: 3, size: 100, modifier: Modifier::Implicit }],
        layers: vec![Layer {
            fourcc: NV12,
            planes: vec![
                Plane { object_index: 0, offset: 0, pitch: 8 },
                Plane { object_index: 0, offset: 64, pitch: 8 },
            ],
        }],
    }
}

#[test]
fn descriptors_are_checked() {
    assert!(descriptor().check());
    let mut d = descriptor();
    d.version = 2;
    assert!(!d.check());
    let mut d = descriptor();
    d.objects.clear();
    assert!(!d.check());
    let mut d = descriptor();
    d.objects[0].fd = -1;
    assert!(!d.check());
    let mut d = descriptor();
    d.objects[0].size = 64;
    assert!(!d.check());
    let mut d = descriptor();
    d.objects.push(Object { fd: 4, size: 1, modifier: Modifier::Explicit(1) });
    assert!(!d.check());
    d.layers[0].planes[1] = Plane { object_index: 1, offset: 0, pitch: 1 };
    assert!(d.check());
    let mut d = descriptor();
    d.layers[0].fourcc = 0;
    assert!(!d.check());
    let mut d = descriptor();
    d.layers.clear();
    assert!(!d.check());
    let mut d = descriptor();
    d.layers[0].planes[0].pitch = 0;
    assert!(!d.check());
    let mut d = descriptor();
    d.layers.push(Layer { fourcc: 1, planes: d.layers[0].planes.clone() });
    assert!(d.check());
    d.layers.push(Layer { fourcc: 1, planes: vec![Plane { object_index: 0, offset: 0, pitch: 1 }] });
    assert!(!d.check());
}

#[test]
fn planes_of_objects_without_descriptor_use_the_first() {
    let desc = frame(
        &[object(3, 9), object(-1, 8)],
        &[
            drm_layer(NV12, &[drm_plane(0, 0, 64)]),
            drm_layer(7, &[drm_plane(1, (1 << 32) + 5, -1)]),
        ],
    );
    let mut export = PrimeExport::new(desc).ok().unwrap();
    assert_eq!(export.fourcc(), NV12);
    assert!(export.has_object(1));
    assert!(!export.has_object(2));
    assert_eq!((export.object_fd(0), export.object_fd(1)), (Some(3), None));
    assert!(export.next_is_in_tables());
    assert_eq!(
        export.next_plane(),
        Some(Ok(PlaneSource {
            plane: 0,
            object: 0,
            fd_from: 0,
            pitch: 64,
            offset: 0,
            modifier: Some(9),
        }))
    );
    let second = export.next_plane().unwrap().unwrap();
    assert_eq!((second.object, second.fd_from, second.plane), (1, 0, 0));
    assert_eq!((second.pitch, second.offset, second.modifier), (u32::MAX, 5, Some(8)));
    assert_eq!(second.duplicate_failed(), PrimeExportError::DuplicateFallbackFailed(0));
    assert_eq!(export.next_plane(), None);
    let own = PlaneSource { fd_from: 1, ..second };
    assert_eq!(own.duplicate_failed(), PrimeExportError::DuplicateFailed(0, 1));
}

#[test]
fn planes_come_in_order() {
    let desc = frame(
        &[object(3, 0)],
        &[
            drm_layer(NV12, &[drm_plane(0, 1, 1), drm_plane(0, 2, 1)]),
            drm_layer(7, &[]),
            drm_layer(7, &[drm_plane(0, 3, 1)]),
        ],
    );
    let mut export = PrimeExport::new(desc).ok().unwrap();
    let mut offsets = Vec::new();
    while let Some(source) = export.next_plane() {
        offsets.push(source.unwrap().offset);
    }
    assert_eq!(offsets, vec![1, 2, 3]);
}

#[test]
fn prime_export_errors() {
    let nv12 = drm_layer(NV12, &[drm_plane(2, 0, 64)]);
    assert_eq!(
        PrimeExport::new(frame(&[], &[nv12])).err(),
        Some(PrimeExportError::EmptyDescriptor)
    );
    assert_eq!(
        PrimeExport::new(frame(&[object(3, 0)], &[])).err(),
        Some(PrimeExportError::EmptyDescriptor)
    );
    assert_eq!(
        PrimeExport::new(frame(&[object(3, 0)], &[drm_layer(7, &[])])).err(),
        Some(PrimeExportError::UnsupportedFourcc(7))
    );
    let desc = frame(&[object(3, 0)], &[nv12]);
    assert_eq!(check_header(&desc, Some(5)), Ok(5));
    assert_eq!(check_header(&desc, None), Err(PrimeExportError::UnsupportedFourcc(NV12)));
    let mut export = PrimeExport::new(desc).ok().unwrap();
    assert_eq!(
        export.next_plane(),
        Some(Err(PrimeExportError::InvalidObjectIndex(2, 0)))
    );
    let blind = frame(&[object(-1, 0)], &[drm_layer(NV12, &[drm_plane(0, 0, 64)])]);
    let mut export = PrimeExport::new(blind).ok().unwrap();
    assert_eq!(export.object_fd(0), None);
    assert_eq!(export.next_plane(), Some(Err(PrimeExportError::NoDescriptor(0, 0))));
    let mut broken = blind;
    broken.layers[0].nb_planes = 5;
    let mut export = PrimeExport::new(broken).ok().unwrap();
    for _ in 0..4 {
        assert!(export.next_is_in_tables());
        export.next_plane();
    }
    assert!(!export.next_is_in_tables());
    broken.nb_layers = 9;
    broken.nb_objects = 0;
    assert_eq!(PrimeExport::new(broken).err(), Some(PrimeExportError::EmptyDescriptor));
    broken.nb_objects = -1;
    let export = PrimeExport::new(broken).ok().unwrap();
    assert!(export.has_object(1000));
    assert!(!export.next_is_in_tables());
}

#[test]
fn timestamps() {
    assert_eq!(packet_timestamp(NO_PTS), None);
    assert_eq!(packet_timestamp(-5), Some(-5));
    let mut metadata = Metadata { width: 0, height: 0 };
    let mut batch: DecodeBatch<&str> = DecodeBatch::new(BatchPolicy::decoder());
    let answer = |pts| Received::Frame { width: 64, height: 32, pts };
    assert_eq!(batch.receive(answer(Some(5)), &mut metadata), Receive::Export);
    assert_eq!(batch.export_done::<u8>(Ok(("a", None))), Ok(()));
    assert_eq!(batch.receive(answer(None), &mut metadata), Receive::Export);
    assert_eq!(batch.export_done::<u8>(Ok(("b", Some(9)))), Ok(()));
    assert_eq!(batch.receive(answer(Some(6)), &mut metadata), Receive::Export);
    assert_eq!(batch.export_done(Err(4)), Err(4));
    assert_eq!(batch.receive(Received::Again, &mut metadata), Receive::Finished);
    assert_eq!(batch.receive(Received::Eof, &mut metadata), Receive::Finished);
    assert_eq!(batch.receive(Received::Failed, &mut metadata), Receive::Failed);
    assert_eq!(batch.pts_list, vec![5, i64::MIN]);
    assert_eq!(batch.frames, vec!["a", "b"]);
    assert_eq!(metadata, Metadata { width: 64, height: 32 });
}

#[test]
fn decoders_treat_their_frames_differently() {
    let mut metadata = Metadata { width: 0, height: 0 };
    let answer = |pts| Received::Frame { width: 64, height: 32, pts };
    let mut prime: DecodeBatch<u8> = DecodeBatch::new(BatchPolicy::prime_decoder());
    prime.receive(answer(Some(5)), &mut metadata);
    assert_eq!(prime.export_done(Err(4)), Ok(()));
    prime.receive(answer(None), &mut metadata);
    assert_eq!(prime.export_done::<u8>(Ok((1, Some(9)))), Ok(()));
    assert_eq!((prime.pts_list, prime.frames), (vec![NO_PTS], vec![1]));
    let mut plain: DecodeBatch<u8> = DecodeBatch::new(BatchPolicy::plain_decoder());
    plain.receive(answer(Some(5)), &mut metadata);
    assert_eq!(plain.export_done::<u8>(Ok((1, Some(9)))), Ok(()));
    plain.receive(answer(Some(5)), &mut metadata);
    assert_eq!(plain.export_done::<u8>(Ok((2, None))), Ok(()));
    plain.receive(answer(Some(5)), &mut metadata);
    assert_eq!(plain.export_done(Err(4)), Err(4));
    assert_eq!((plain.pts_list, plain.frames), (vec![9, 0], vec![1, 2]));
}

#[test]
fn decoder_options() {
    let parse = |output: &str, format: Option<&str>, device: &str, decoder: &str| {
        parse_options(output, format.map(str::to_string), device.to_string(), decoder)
    };
    let options = parse("raw", Some("NV12"), "", "auto").unwrap();
    assert_eq!(options.output_mode, OutputMode::Raw);
    assert_eq!(options.raw_target, Some(Pixel::Nv12));
    assert_eq!(options.hw_device, None);
    assert_eq!(options.backend, Backend::Auto);
    let options = parse("dmabuf", Some("nonsense"), "/dev/dri/renderD128", "vaapi").unwrap();
    assert_eq!(options.output_mode, OutputMode::Dmabuf);
    assert_eq!(options.raw_target, None);
    assert_eq!(options.hw_device.as_deref(), Some("/dev/dri/renderD128"));
    assert_eq!(options.backend, Backend::Vaapi);
    assert_eq!(parse("raw", Some("I420"), "", "v4l2request").unwrap().backend, Backend::V4l2Request);
    assert_eq!(parse("raw", Some("I420"), "", "v4l2m2m").unwrap().backend, Backend::V4l2M2M);
    assert_eq!(parse("raw", Some("I420"), "", "software").unwrap().backend, Backend::Software);
    assert_eq!(parse("png", None, "", "auto").unwrap_err(), OptionError::BadArg);
    assert_eq!(parse("raw", None, "", "auto").unwrap_err(), OptionError::BadArg);
    assert_eq!(parse("raw", Some("nv12"), "", "no").unwrap_err(), OptionError::BadPixelFormat);
    assert_eq!(parse("raw", Some("NV12"), "", "no").unwrap_err(), OptionError::BadArg);
    assert_eq!(device_path(String::new()), None);
    assert_eq!(device_path("x".to_string()), Some("x".to_string()));
}

#[test]
fn pixel_layouts() {
    for (name, pixel) in [
        ("I420", Pixel::Yuv420P),
        ("I422", Pixel::Yuv422P),
        ("I444", Pixel::Yuv444P),
        ("RGB", Pixel::Rgb24),
        ("BGRA", Pixel::Bgra),
        ("RGBA", Pixel::Rgba),
        ("NV12", Pixel::Nv12),
        ("NV21", Pixel::Nv21),
        ("YV12", Pixel::Yuv420P),
        ("AYUV", Pixel::Ayuv64Le),
        ("YUY2", Pixel::Yuyv422),
    ] {
        assert_eq!(pixel_from_atom(name), Some(pixel));
    }
    assert_eq!(pixel_from_atom("yuy2"), None);
    for (name, pixel) in [
        ("nv12", Pixel::Nv12),
        ("yuv420p", Pixel::Yuv420P),
        ("rgb24", Pixel::Rgb24),
    ] {
        assert_eq!(h265::pixel_from_atom(name), Some(pixel));
        assert_eq!(atom_from_pixel(pixel), Some(name));
    }
    assert_eq!(h265::pixel_from_atom("NV12"), None);
    assert_eq!(atom_from_pixel(Pixel::Bgra), None);
}

#[test]
fn codecs_are_tried_best_first() {
    let names: Vec<Option<&str>> = candidates(Backend::Auto).iter().map(|c| c.text()).collect();
    assert_eq!(
        names,
        vec![
            Some("hevc_v4l2request"),
            Some("h265_v4l2request"),
            Some("hevc_v4l2m2m"),
            Some("h265_v4l2m2m"),
            None,
        ]
    );
    let choice = choose_codec(Backend::Auto, &vec![false, false, true, true, true]).unwrap();
    assert_eq!((choice.index, choice.use_v4l2), (2, true));
    let choice = choose_codec(Backend::Auto, &vec![false, false, false, false, true]).unwrap();
    assert_eq!((choice.index, choice.use_v4l2), (4, false));
    let error = |backend| {
        let none = vec![false; candidates(backend).len()];
        choose_codec(backend, &none).unwrap_err()
    };
    assert_eq!(error(Backend::Auto), CodecError::NoHevc);
    assert_eq!(error(Backend::Vaapi), CodecError::NoHevc);
    assert_eq!(error(Backend::Software), CodecError::NoHevc);
    assert_eq!(error(Backend::V4l2Request), CodecError::NoV4l2Request);
    assert_eq!(error(Backend::V4l2M2M), CodecError::NoV4l2M2M);
    assert_eq!(CodecError::NoHevc.text(), "no hevc codec");
    assert_eq!(CodecError::NoV4l2Request.text(), "no v4l2request codec");
    assert_eq!(CodecError::NoV4l2M2M.text(), "no v4l2m2m codec");
    assert!(choose_codec(Backend::V4l2M2M, &vec![false, true]).unwrap().use_v4l2);
    assert_eq!(choose_plain_codec(true, true, true), Ok(CodecName::HevcV4l2M2M));
    assert_eq!(choose_plain_codec(true, false, true), Ok(CodecName::Hevc));
    assert_eq!(choose_plain_codec(false, true, true), Ok(CodecName::Hevc));
    assert_eq!(choose_plain_codec(false, true, false), Err(CodecError::NoHevc));
}

#[test]
fn devices() {
    assert!(matches!(hw_setup(true, Backend::Auto, None), HwSetup::Drm));
    assert!(matches!(
        hw_setup(false, Backend::Auto, None),
        HwSetup::Vaapi(p) if p == "/dev/dri/renderD129"
    ));
    assert!(matches!(
        hw_setup(false, Backend::Vaapi, Some("x".to_string())),
        HwSetup::Vaapi(p) if p == "x"
    ));
    assert!(matches!(
        hw_setup(false, Backend::Software, Some("x".to_string())),
        HwSetup::Software
    ));
    assert!(matches!(plain_hw_setup(true, None), HwSetup::Software));
    assert!(matches!(
        plain_hw_setup(false, None),
        HwSetup::Vaapi(p) if p == "/dev/dri/renderD128"
    ));
    assert_eq!(pick_format(&vec![Pixel::Nv12, Pixel::DrmPrime]), Some(Pixel::DrmPrime));
    assert_eq!(pick_format(&vec![Pixel::Nv12, Pixel::Rgba]), Some(Pixel::Nv12));
    assert_eq!(pick_format(&vec![]), None);
    assert_eq!(frame_route(Pixel::DrmPrime, false), Ok(FrameRoute::Reference));
    assert_eq!(frame_route(Pixel::Vaapi, true), Ok(FrameRoute::MapSurface));
    assert_eq!(frame_route(Pixel::Nv12, false), Err("no hw_frames_ctx"));
}

fn shape(format: Pixel, width: u32) -> FrameShape {
    FrameShape { format, width, height: 32 }
}

#[test]
fn raw_frame_takes_its_steps() {
    let mut decoder = Decoder::new(Pixel::Rgb24, ScalerPolicy::PerShape);
    let step = decoder.begin(shape(Pixel::Vaapi, 64), true);
    assert_eq!(step, RawStep::Transfer);
    assert!(Decoder::expects(&step, &RawOutcome::Transferred(None)));
    assert!(!Decoder::expects(&step, &RawOutcome::Copied(0)));
    let source = shape(Pixel::Nv12, 64);
    let step = decoder.next(step, RawOutcome::Transferred(Some(source)));
    let spec = ScalerSpec::of(source, Pixel::Rgb24);
    assert_eq!((spec.dst_width, spec.dst_height), (64, 32));
    assert_eq!(step, RawStep::CreateScaler(spec));
    let step = decoder.next(step, RawOutcome::ScalerCreated(true));
    assert_eq!(step, RawStep::Scale);
    let converted = shape(Pixel::Rgb24, 64);
    let step = decoder.next(step, RawOutcome::Scaled(Some(converted)));
    assert_eq!(step, RawStep::Measure(converted));
    let step = decoder.next(step, RawOutcome::Measured(6144));
    assert_eq!(step, RawStep::Allocate(6144));
    let step = decoder.next(step, RawOutcome::Allocated(true));
    assert_eq!(step, RawStep::CopyOut);
    assert_eq!(decoder.next(step, RawOutcome::Copied(6144)), RawStep::Done);

    assert_eq!(decoder.begin(source, false), RawStep::Scale);
    assert_eq!(decoder.begin(converted, false), RawStep::Measure(converted));
    assert!(matches!(decoder.begin(shape(Pixel::Nv12, 65), false), RawStep::CreateScaler(_)));
    decoder.drop_scaler();
    assert!(matches!(decoder.begin(source, false), RawStep::CreateScaler(_)));

    let mut once = Decoder::new(Pixel::Rgb24, ScalerPolicy::Once);
    let step = once.begin(source, false);
    once.next(step, RawOutcome::ScalerCreated(true));
    assert_eq!(once.begin(shape(Pixel::Nv12, 65), false), RawStep::Scale);
}

#[test]
fn raw_frame_failures() {
    let mut d = Decoder::new(Pixel::Rgb24, ScalerPolicy::Once);
    let source = shape(Pixel::Nv12, 64);
    let create = RawStep::CreateScaler(ScalerSpec::of(source, Pixel::Rgb24));
    for (step, outcome, error, text) in [
        (RawStep::Transfer, RawOutcome::Transferred(None), RawError::MapFrame, "map_frame"),
        (create, RawOutcome::ScalerCreated(false), RawError::Scaler, "scaler"),
        (RawStep::Scale, RawOutcome::Scaled(None), RawError::Scale, "scale"),
        (RawStep::Measure(source), RawOutcome::Measured(-1), RawError::BufferSize, "buffer_size"),
        (RawStep::Allocate(1), RawOutcome::Allocated(false), RawError::AllocBinary, "alloc_binary"),
        (RawStep::CopyOut, RawOutcome::Copied(-1), RawError::Copy, "copy"),
    ] {
        assert_eq!(d.next(step, outcome), RawStep::Failed(error));
        assert_eq!(error.text(), text);
    }
    assert_eq!(d.scaler_spec, None);
    assert_eq!(raw_target(Some(Pixel::Nv12)), Ok(Pixel::Nv12));
    assert_eq!(raw_target(None), Err("missing raw output format"));
}

#[test]
fn resources_are_released_once() {
    let mut keepalive = Keepalive::new(5);
    assert_eq!(keepalive.release(), Some(5));
    assert_eq!(keepalive.release(), None);
    let mut term = FrozenTerm::new("env", 7);
    assert_eq!(*term.load(), 7);
    assert!(!term.is_used());
    assert_eq!(term.send_once_with(), Some(("env", 7)));
    assert!(term.is_used());
    assert_eq!(term.send_once_with(), None);
}

#[test]
fn quarantine_is_for_good() {
    let mut admission = Admission::new();
    assert!(admission.check().is_ok());
    assert!(admission.quarantine());
    assert!(!admission.quarantine());
    assert_eq!(
        admission.check(),
        Err("release dispatcher admission is disabled until cold VM restart")
    );
}
