use std::io;

use drm::control::atomic::AtomicModeReq;
use drm::control::{from_u32, property, RawResourceHandle};
use video_transcode::atomic::{all_have_handles, build_request};
use video_transcode::error::{Error, ErrorKind};
use video_transcode::import::{
    common_modifier, CloseOutcome, HandleCloser, PrimeImage, PrimeObject, PrimePlane,
};
use video_transcode::modeset::{
    flip_request, import_request, modeset_request, Assignment, CommitMode, Pipeline, PropValue,
};
use video_transcode::prime_display::{imported_buffer, Backlog, PrimeDisplay, PrimeFrame, ShownFrame};
use video_transcode::property::DisplayProps;
use video_transcode::queue::DisplayQueueState;
use video_transcode::scanout::{
    release_prime_desc, DisplayUnit, Effect, ScanoutState, TraceStage, TraceToken,
};
use video_transcode::submit::{release_all, Importing, PrimeDesc};

fn message(e: &Error) -> &str {
    match e {
        Error::Custom { message, .. } => message,
        Error::Simple(_) => "",
    }
}

fn pipeline(zpos: Option<u32>) -> Pipeline {
    Pipeline {
        conn: 1,
        crtc: 2,
        plane: 3,
        props: DisplayProps {
            conn_crtc: 10,
            mode: 11,
            active: 12,
            crtc: 13,
            fb: 14,
            src_x: 15,
            src_y: 16,
            src_w: 17,
            src_h: 18,
            crtc_x: 19,
            crtc_y: 20,
            crtc_w: 21,
            crtc_h: 22,
            zpos,
        },
    }
}

fn set(object: u32, property: u32, value: PropValue) -> Assignment {
    Assignment { object, property, value }
}

fn rectangles() -> Vec<Assignment> {
    vec![
        set(3, 15, PropValue::UnsignedRange(0)),
        set(3, 16, PropValue::UnsignedRange(0)),
        set(3, 17, PropValue::UnsignedRange(1920 << 16)),
        set(3, 18, PropValue::UnsignedRange(1080 << 16)),
        set(3, 19, PropValue::SignedRange(0)),
        set(3, 20, PropValue::SignedRange(0)),
        set(3, 21, PropValue::UnsignedRange(1920)),
        set(3, 22, PropValue::UnsignedRange(1080)),
    ]
}

#[test]
fn modeset_hooks_everything_together() {
    let mut expected = vec![
        set(1, 10, PropValue::Crtc(2)),
        set(2, 11, PropValue::Blob(99)),
        set(2, 12, PropValue::Boolean(true)),
        set(3, 13, PropValue::Crtc(2)),
        set(3, 14, PropValue::Framebuffer(50)),
    ];
    expected.extend(rectangles());
    assert_eq!(modeset_request(&pipeline(None), 50, 99, 1920, 1080), expected);
}

#[test]
fn flip_only_changes_the_framebuffer() {
    assert_eq!(
        flip_request(&pipeline(None), 51),
        vec![set(3, 13, PropValue::Crtc(2)), set(3, 14, PropValue::Framebuffer(51))]
    );
}

#[test]
fn first_import_sets_the_display_up() {
    let mut expected = vec![
        set(3, 13, PropValue::Crtc(2)),
        set(1, 10, PropValue::Crtc(2)),
        set(2, 11, PropValue::Blob(99)),
        set(2, 12, PropValue::Boolean(true)),
    ];
    expected.extend(rectangles());
    expected.push(set(3, 23, PropValue::UnsignedRange(1)));
    expected.push(set(3, 14, PropValue::Framebuffer(50)));
    let p = pipeline(Some(23));
    assert_eq!(import_request(&p, false, 50, 99, 1920, 1080), expected);
    assert_eq!(
        import_request(&p, true, 50, 99, 1920, 1080),
        vec![set(3, 14, PropValue::Framebuffer(50))]
    );
}

fn raw_request(entries: &[(u32, u32, u64)]) -> AtomicModeReq {
    let mut req = AtomicModeReq::new();
    for (object, property, value) in entries {
        let handle: property::Handle = from_u32(*property).unwrap();
        req.add_raw_property(RawResourceHandle::new(*object).unwrap(), handle, *value);
    }
    req
}

#[test]
fn requests_hold_the_last_value_of_each_property() {
    let flip = flip_request(&pipeline(None), 51);
    assert!(all_have_handles(&flip));
    assert_eq!(
        format!("{:?}", build_request(&flip)),
        format!("{:?}", raw_request(&[(3, 13, 2), (3, 14, 51)]))
    );
    let values = vec![
        set(9, 4, PropValue::Boolean(true)),
        set(2, 4, PropValue::SignedRange(-1)),
        set(9, 3, PropValue::Blob(1 << 40)),
        set(9, 4, PropValue::Boolean(false)),
        set(2, 5, PropValue::UnsignedRange(7)),
    ];
    assert_eq!(
        format!("{:?}", build_request(&values)),
        format!("{:?}", raw_request(&[(2, 4, u64::MAX), (2, 5, 7), (9, 3, 1 << 40), (9, 4, 0)]))
    );
    assert_eq!(
        format!("{:?}", build_request(&vec![])),
        format!("{:?}", AtomicModeReq::new())
    );
    assert!(!all_have_handles(&vec![set(0, 1, PropValue::Boolean(true))]));
    assert!(!all_have_handles(&vec![set(1, 0, PropValue::Boolean(true))]));
}

fn image(modifiers: &[Option<u64>], planes: &[u32]) -> PrimeImage {
    PrimeImage {
        width: 1920,
        height: 1080,
        format: 842094158,
        objects: modifiers
            .iter()
            .enumerate()
            .map(|(i, m)| PrimeObject::new(i as i32 + 3, *m).unwrap())
            .collect(),
        planes: planes
            .iter()
            .enumerate()
            .map(|(i, o)| PrimePlane {
                obj_idx: *o,
                pitch: 2048,
                offset: i as u32 * 4096,
            })
            .collect(),
    }
}

#[test]
fn negative_descriptors_are_none() {
    assert!(PrimeObject::new(-1, None).is_none());
    assert_eq!(PrimeObject::new(0, Some(7)).unwrap().modifier, Some(7));
}

#[test]
fn modifiers_collapse_to_one() {
    assert_eq!(common_modifier(&image(&[None, None], &[0]).objects), Ok(None));
    assert_eq!(common_modifier(&image(&[None, Some(5), Some(5)], &[0]).objects), Ok(Some(5)));
    assert_eq!(
        common_modifier(&image(&[Some(5), None, Some(6), Some(7)], &[0]).objects),
        Err((5, 6))
    );
}

#[test]
fn slots_are_counted() {
    assert!(image(&[None; 4], &[3, 0]).check_slots());
    assert!(!image(&[None], &[0, 0, 0, 0, 0]).check_slots());
    assert!(!image(&[None], &[4]).check_slots());
}

fn desc(image: PrimeImage, keepalive: u32, trace_token: Option<TraceToken>) -> PrimeDesc<u32> {
    PrimeDesc { image, keepalive, trace_token }
}

fn token(sampled: bool) -> TraceToken {
    TraceToken { trace_id: 1, frame_id: 2, created_at_ns: 3, sampled, pts: None }
}

#[test]
fn frame_goes_through_all_steps() {
    let mut state: ScanoutState<u32> = ScanoutState::new();
    let p = pipeline(None);
    let mut importing =
        Importing::new(desc(image(&[Some(5), Some(5)], &[0, 1]), 7, Some(token(true)))).ok().unwrap();
    assert_eq!(importing.next_fd(), Some(3));
    importing.imported(30);
    assert_eq!(importing.next_fd(), Some(4));
    importing.imported(31);
    assert_eq!(importing.next_fd(), None);
    let described = importing.describe().ok().unwrap();
    let buf = described.buf;
    assert_eq!((buf.w, buf.h, buf.fourcc), (1920, 1080, 842094158));
    assert_eq!(buf.handles, [Some(30), Some(31), None, None]);
    assert_eq!(buf.pitches, [2048, 2048, 0, 0]);
    assert_eq!(buf.offsets, [0, 4096, 0, 0]);
    assert_eq!(buf.modifier, Some(5));
    assert!(buf.with_modifiers());
    let (ready, request, mode) = described.prepare(50, &mut state, &p, 99);
    assert_eq!(request, import_request(&p, false, 50, 99, 1920, 1080));
    assert_eq!(mode, CommitMode::AllowModeset);
    assert!(state.setup);
    let effects = ready.committed(&mut state);
    assert_eq!(effects.len(), 1);
    assert!(matches!(effects[0], Effect::Trace(TraceStage::NativeSubmit, t) if t == token(true)));
    assert!(state.in_flight.is_some());
    assert!(state.stale.is_none());
}

#[test]
fn frame_without_planes_is_refused() {
    assert!(Importing::new(desc(image(&[None; 9], &[]), 7, None)).is_err());
    let refusal = Importing::new(desc(image(&[None], &[]), 7, Some(token(true)))).err().unwrap();
    assert_eq!(message(&refusal.error), "PrimeDesc has no planes");
    assert_eq!(refusal.desc.keepalive, 7);
    assert_eq!(refusal.effects.len(), 1);
    assert!(matches!(refusal.effects[0], Effect::Trace(TraceStage::NativeSubmitError, _)));
}

#[test]
fn failed_import_closes_what_was_imported() {
    let mut importing =
        Importing::new(desc(image(&[None, None], &[0, 1]), 7, Some(token(false)))).ok().unwrap();
    importing.imported(30);
    let refusal = importing.import_failed();
    assert_eq!(refusal.error.kind(), ErrorKind::Other);
    assert_eq!(message(&refusal.error), "prime_fd_to_buffer failed on plane 1");
    assert_eq!(refusal.effects.len(), 1);
    assert!(matches!(
        refusal.effects[0],
        Effect::CloseHandles([Some(30), None, None, None])
    ));
}

#[test]
fn different_modifiers_are_refused() {
    let mut importing =
        Importing::new(desc(image(&[Some(1), Some(2)], &[0, 1]), 7, None)).ok().unwrap();
    importing.imported(30);
    importing.imported(31);
    let refusal = importing.describe().err().unwrap();
    assert_eq!(message(&refusal.error), "mixed plane modifiers not supported (1 vs 2)");
    assert!(matches!(
        refusal.effects[0],
        Effect::CloseHandles([Some(30), Some(31), None, None])
    ));
}

#[test]
fn rejected_framebuffer_and_failed_commit() {
    let mut state: ScanoutState<u32> = ScanoutState::new();
    let mut importing = Importing::new(desc(image(&[None], &[0, 0]), 7, None)).ok().unwrap();
    importing.imported(30);
    let refusal = importing.describe().ok().unwrap().rejected();
    assert_eq!(message(&refusal.error), "add_planar_framebuffer failed");
    assert!(matches!(refusal.effects[0], Effect::CloseHandles([Some(30), None, None, None])));

    let mut importing = Importing::new(refusal.desc).ok().unwrap();
    importing.imported(30);
    let described = importing.describe().ok().unwrap();
    let (ready, _, _) = described.prepare(50, &mut state, &pipeline(None), 99);
    let refusal = ready.commit_failed(io::ErrorKind::PermissionDenied, "bad");
    assert_eq!(refusal.error.kind(), ErrorKind::System(io::ErrorKind::PermissionDenied));
    assert_eq!(message(&refusal.error), "atomic commit: bad");
    assert!(matches!(refusal.effects[0], Effect::DestroyFramebuffer(50)));
    assert!(matches!(
        refusal.effects[1],
        Effect::CloseHandles([Some(30), Some(30), None, None])
    ));
    assert!(state.setup && state.in_flight.is_none());
}

fn unit(n: u32) -> DisplayUnit<u32> {
    DisplayUnit {
        fb: n,
        handles: [Some(n), None, None, None],
        keepalive: n,
        trace_token: Some(token(true)),
    }
}

fn released(effects: &[Effect<u32>]) -> Vec<u32> {
    effects
        .iter()
        .filter_map(|e| match e {
            Effect::Release(k) => Some(*k),
            _ => None,
        })
        .collect()
}

#[test]
fn frames_are_given_back_two_commits_later() {
    let mut state: ScanoutState<u32> = ScanoutState::new();
    let p = pipeline(None);
    assert_eq!(state.prepare(&p, 1, 9, 8, 8).1, CommitMode::AllowModeset);
    assert_eq!(released(&state.committed(unit(1))), Vec::<u32>::new());
    let (request, mode) = state.prepare(&p, 2, 9, 8, 8);
    assert_eq!((request.len(), mode), (1, CommitMode::Plain));
    assert_eq!(released(&state.committed(unit(2))), Vec::<u32>::new());
    let effects = state.committed(unit(3));
    assert_eq!(released(&effects), vec![1]);
    assert!(matches!(effects[0], Effect::DestroyFramebuffer(1)));
    assert!(matches!(effects[1], Effect::CloseHandles([Some(1), None, None, None])));
    assert!(matches!(effects[2], Effect::Trace(TraceStage::NativeReleaseDisplayed, _)));
    assert!(matches!(effects[4], Effect::Trace(TraceStage::NativeSubmit, _)));
    assert_eq!(released(&state.shut_down()), vec![2, 3]);
    assert!(state.shut_down().is_empty());
}

#[test]
fn releases_are_traced_when_sampled() {
    let effects = release_prime_desc(7, Some(token(true)), TraceStage::NativeReleaseReplaced);
    assert_eq!(effects.len(), 2);
    assert!(matches!(effects[0], Effect::Trace(TraceStage::NativeReleaseReplaced, _)));
    assert!(matches!(effects[1], Effect::Release(7)));
    let effects = release_prime_desc(7, Some(token(false)), TraceStage::NativeReleasePending);
    assert_eq!(effects.len(), 1);
    assert_eq!(release_prime_desc(7, None, TraceStage::NativeReleasePending).len(), 1);
    assert!(TraceStage::NativeSubmit.is_timed());
    assert!(TraceStage::NativeSubmitError.is_timed());
    assert!(!TraceStage::NativeReleaseDisplayed.is_timed());
}

#[test]
fn every_frame_is_released_once() {
    let plain = |n: u32| desc(image(&[None], &[0]), n, Some(token(n % 2 == 0)));
    let effects = release_all(
        vec![plain(4), plain(5), plain(6)],
        TraceStage::NativeReleaseReplaced,
    );
    assert_eq!(released(&effects), vec![4, 5, 6]);
    assert_eq!(effects.len(), 5);
    assert!(release_all(Vec::<PrimeDesc<u32>>::new(), TraceStage::NativeReleaseReplaced).is_empty());

    // Five frames: the first is replaced, the second refused once and shown later, then the
    // third and fourth are shown, and the fifth still waits when the queue is closed.
    let mut queue: DisplayQueueState<PrimeDesc<u32>> = DisplayQueueState::new();
    let mut state: ScanoutState<u32> = ScanoutState::new();
    let mut out = Vec::new();
    queue.enqueue(plain(1)).unwrap();
    queue.enqueue(plain(2)).unwrap();
    out.extend(released(&release_all(
        queue.take_releases(),
        TraceStage::NativeReleaseReplaced,
    )));
    let mut importing = Importing::new(queue.take_pending().unwrap()).ok().unwrap();
    importing.imported(30);
    let refusal = importing.describe().ok().unwrap().rejected();
    out.extend(released(&refusal.effects));
    queue.restore_or_release(refusal.desc);
    for n in [3, 4, 5] {
        let mut importing = Importing::new(queue.take_pending().unwrap()).ok().unwrap();
        importing.imported(30);
        let described = importing.describe().ok().unwrap();
        let (ready, _, _) = described.prepare(50, &mut state, &pipeline(None), 99);
        out.extend(released(&ready.committed(&mut state)));
        queue.enqueue(plain(n)).unwrap();
    }
    queue.close();
    let last = queue.take_pending().unwrap();
    let stage = TraceStage::NativeReleasePending;
    out.extend(released(&release_prime_desc(last.keepalive, last.trace_token, stage)));
    out.extend(released(&release_all(
        queue.take_releases(),
        TraceStage::NativeReleaseReplaced,
    )));
    out.extend(released(&state.shut_down()));
    out.sort();
    assert_eq!(out, vec![1, 2, 3, 4, 5]);
}

#[test]
fn shared_handles_are_tried_once() {
    let mut closer = HandleCloser::new(&[Some(4), None, Some(4), Some(5)]);
    assert_eq!(closer.current(), Some(4));
    closer.report(CloseOutcome::Interrupted);
    assert_eq!(closer.current(), Some(5));
    closer.report(CloseOutcome::Interrupted);
    assert_eq!(closer.current(), None);
    let mut closer = HandleCloser::new(&[Some(4), Some(5), None, None]);
    closer.report(CloseOutcome::Closed);
    assert_eq!(closer.current(), None);
    let mut closer = HandleCloser::new(&[Some(4), Some(5), None, None]);
    closer.report(CloseOutcome::Failed);
    assert_eq!(closer.current(), None);
    assert_eq!(HandleCloser::new(&[None; 4]).current(), None);
}

#[test]
fn newest_frame_waits() {
    let mut queue: DisplayQueueState<u32> = DisplayQueueState::new();
    assert!(!queue.is_ready());
    queue.enqueue(1).unwrap();
    queue.enqueue(2).unwrap();
    queue.enqueue(3).unwrap();
    assert!(queue.is_ready());
    assert_eq!(queue.take_pending(), Some(3));
    assert_eq!(queue.take_pending(), None);
    assert_eq!(queue.take_releases(), vec![1, 2]);
    assert_eq!(queue.take_releases(), Vec::<u32>::new());
    queue.restore_or_release(3);
    assert_eq!(queue.pending, Some(3));
    queue.restore_or_release(4);
    assert_eq!(queue.take_releases(), vec![4]);
    queue.close();
    assert!(queue.is_closed());
    assert!(matches!(queue.enqueue(5), Err(Error::Simple(ErrorKind::BrokenPipe))));
    assert_eq!(queue.take_pending(), Some(3));
    queue.restore_or_release(3);
    assert_eq!(queue.take_releases(), vec![3]);
}

#[test]
fn queue_hands_every_frame_out_once() {
    let mut queue: DisplayQueueState<u32> = DisplayQueueState::new();
    let mut out = Vec::new();
    for n in 0..10 {
        queue.enqueue(n).unwrap();
        if n % 3 == 0 {
            let taken = queue.take_pending().unwrap();
            if n % 2 == 0 {
                queue.restore_or_release(taken);
            } else {
                out.push(taken);
            }
        }
        if n % 4 == 0 {
            out.extend(queue.take_releases());
        }
    }
    queue.close();
    out.extend(queue.take_pending());
    out.extend(queue.take_releases());
    out.sort();
    assert_eq!(out, (0..10).collect::<Vec<u32>>());
}

#[test]
fn display_that_keeps_the_last_frame_only() {
    let frame = PrimeFrame {
        fd: 9,
        width: 64,
        height: 32,
        pitches: vec![1, 2, 3, 4, 5],
        offsets: vec![7],
    };
    let buffer = imported_buffer(&frame, 842094158, 5);
    assert_eq!((buffer.w, buffer.h, buffer.fmt), (64, 32, 842094158));
    assert_eq!(buffer.pitches, [1, 2, 3, 4]);
    assert_eq!(buffer.offsets, [7, 0, 0, 0]);
    assert_eq!(buffer.handles, [Some(5), None, None, None]);

    let mut display = PrimeDisplay::new();
    let p = pipeline(None);
    let (request, mode) = display.prepare(&p, 50, 99, 1920, 1080);
    assert_eq!(request, import_request(&p, false, 50, 99, 1920, 1080));
    assert_eq!(mode, CommitMode::AllowModeset);
    let first = ShownFrame { fb: 50, handle: 5 };
    assert_eq!(display.committed(first), None);
    let (request, mode) = display.prepare(&p, 51, 99, 1920, 1080);
    assert_eq!((request.len(), mode), (1, CommitMode::PageFlipEvent));
    let second = ShownFrame { fb: 51, handle: 6 };
    assert_eq!(display.committed(second), Some(first));
    assert_eq!(display.shut_down(), Some(second));
    assert_eq!(display.shut_down(), None);

    let mut backlog = Backlog { newest: frame };
    let newer = PrimeFrame { fd: 10, width: 1, height: 1, pitches: vec![], offsets: vec![] };
    assert_eq!(backlog.push(newer), 10);
    assert_eq!(backlog.newest.fd, 10);
}
