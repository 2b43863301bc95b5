use video_transcode::error::{Error, ErrorKind};
use video_transcode::managed::{DisplayRes, ManagedDisplay};
use video_transcode::modeset::{flip_request, Pipeline};
use video_transcode::pixel_format::PixelFormat;
use video_transcode::prime_loop::{waiting_reason, DisplayLoop, LoopAction, LoopEvent};
use video_transcode::property::DisplayProps;
use video_transcode::raw::{
    check_frame_size, commit_request, FrameTarget, RawActiveDisplay, RawDisplayConfig,
    RawDisplayState,
};
use video_transcode::raw_loop::{start, RawAction, RawEvent, RawLoop, RawStart};
use video_transcode::schedule::{Schedule, HOTPLUG_INTERVAL, RECONNECT_INTERVAL};
use video_transcode::sink::SinkDisplay;
use video_transcode::topology::DisplayInfo;

const MS: u64 = 1_000_000;

fn message(e: &Error) -> &str {
    match e {
        Error::Custom { message, .. } => message,
        Error::Simple(_) => "",
    }
}

fn info(plane_id: u32) -> DisplayInfo {
    DisplayInfo {
        card_path: "card".to_string(),
        connector_id: 1,
        connector_type: "HDMIA".to_string(),
        crtc_id: 2,
        plane_id,
        mode: (1920, 1080, 60),
    }
}

#[test]
fn intervals() {
    assert_eq!(RECONNECT_INTERVAL, 250 * MS);
    assert_eq!(HOTPLUG_INTERVAL, 750 * MS);
    let mut s = Schedule::new(1000 * MS);
    assert!(s.connect_attempt_is_due(1000 * MS));
    assert!(!s.hotplug_check_is_due(1749 * MS));
    assert!(s.hotplug_check_is_due(1750 * MS));
    assert_eq!(s.timeout(true, 1100 * MS), 650 * MS);
    assert_eq!(s.timeout(true, 1800 * MS), 0);
    s.connect_failed(1200 * MS);
    assert_eq!(s.timeout(false, 1250 * MS), 200 * MS);
    s.display_lost(1300 * MS);
    assert_eq!(s.timeout(false, 1300 * MS), 0);
    s.display_seen(2000 * MS);
    assert_eq!(s.next_hotplug_check, 2750 * MS);
}

#[test]
fn frames_are_shown_round_by_round() {
    let mut thread = DisplayLoop::new(Some(info(3)), 0);
    assert!(matches!(thread.action, LoopAction::ReleaseQueued));
    thread.step(LoopEvent::Released(true), 0);
    assert!(matches!(thread.action, LoopAction::CheckClosed));
    thread.step(LoopEvent::Closed(Some(false)), 10 * MS);
    assert!(matches!(thread.action, LoopAction::TakePending));
    assert!(thread.expects(&LoopEvent::Taken(Some(true))));
    assert!(!thread.expects(&LoopEvent::Waited));
    thread.step(LoopEvent::Taken(Some(true)), 10 * MS);
    assert!(matches!(thread.action, LoopAction::Submit));
    thread.step(LoopEvent::Submitted(Ok(())), 20 * MS);
    assert!(matches!(thread.action, LoopAction::ReleaseQueued));
    thread.step(LoopEvent::Released(true), 20 * MS);
    thread.step(LoopEvent::Closed(Some(false)), 20 * MS);
    thread.step(LoopEvent::Taken(Some(false)), 20 * MS);
    assert!(matches!(thread.action, LoopAction::Wait));
    assert_eq!(thread.timeout(20 * MS), 730 * MS);
    thread.step(LoopEvent::Waited, 750 * MS);
    thread.step(LoopEvent::Released(true), 750 * MS);
    thread.step(LoopEvent::Closed(Some(false)), 750 * MS);
    assert!(matches!(thread.action, LoopAction::Scan));
    thread.step(LoopEvent::Scanned(Ok(info(3))), 760 * MS);
    assert!(matches!(thread.action, LoopAction::TakePending));
    assert_eq!(thread.schedule.next_hotplug_check, 1510 * MS);
}

#[test]
fn changed_display_is_given_up_and_looked_for() {
    let mut thread = DisplayLoop::new(Some(info(3)), 0);
    thread.step(LoopEvent::Released(true), 800 * MS);
    thread.step(LoopEvent::Closed(Some(false)), 800 * MS);
    thread.step(LoopEvent::Scanned(Ok(info(4))), 800 * MS);
    assert!(matches!(&thread.action, LoopAction::Disconnect(r) if r == "display topology changed"));
    thread.step(LoopEvent::Disconnected, 810 * MS);
    assert!(thread.info.is_none());
    thread.step(LoopEvent::Released(true), 810 * MS);
    thread.step(LoopEvent::Closed(Some(false)), 810 * MS);
    assert!(matches!(thread.action, LoopAction::Connect));
    thread.step(LoopEvent::Connected(None), 820 * MS);
    assert!(matches!(thread.action, LoopAction::Wait));
    assert_eq!(thread.timeout(820 * MS), 250 * MS);
    thread.step(LoopEvent::Waited, 900 * MS);
    thread.step(LoopEvent::Released(true), 900 * MS);
    thread.step(LoopEvent::Closed(Some(false)), 900 * MS);
    assert!(matches!(thread.action, LoopAction::Wait));
    thread.step(LoopEvent::Waited, 1070 * MS);
    thread.step(LoopEvent::Released(true), 1070 * MS);
    thread.step(LoopEvent::Closed(Some(false)), 1070 * MS);
    assert!(matches!(thread.action, LoopAction::Connect));
    thread.step(LoopEvent::Connected(Some(info(5))), 1100 * MS);
    assert!(thread.info.is_some());
    assert_eq!(thread.timeout(1100 * MS), 750 * MS);
}

#[test]
fn failed_scan_and_failed_submission_give_the_display_up() {
    let mut thread = DisplayLoop::new(Some(info(3)), 0);
    thread.step(LoopEvent::Released(true), 800 * MS);
    thread.step(LoopEvent::Closed(Some(false)), 800 * MS);
    thread.step(LoopEvent::Scanned(Err("open card: gone".to_string())), 800 * MS);
    assert!(matches!(&thread.action, LoopAction::Disconnect(r) if r == "open card: gone"));
    let mut thread = DisplayLoop::new(Some(info(3)), 0);
    thread.step(LoopEvent::Released(true), 0);
    thread.step(LoopEvent::Closed(Some(false)), 0);
    thread.step(LoopEvent::Taken(Some(true)), 0);
    thread.step(LoopEvent::Submitted(Err("atomic commit: no".to_string())), 0);
    assert!(matches!(&thread.action, LoopAction::Disconnect(r) if r == "atomic commit: no"));
}

#[test]
fn closed_queue_is_emptied_before_the_thread_stops() {
    let mut thread = DisplayLoop::new(None, 0);
    thread.step(LoopEvent::Released(true), 0);
    thread.step(LoopEvent::Closed(Some(true)), 0);
    assert!(matches!(thread.action, LoopAction::ReleasePending));
    thread.step(LoopEvent::PendingReleased(true), 0);
    assert!(matches!(thread.action, LoopAction::ReleaseRest));
    thread.step(LoopEvent::RestReleased, 0);
    assert!(matches!(thread.action, LoopAction::Stop));
    assert!(!thread.expects(&LoopEvent::Waited));
}

#[test]
fn unusable_queue_stops_the_thread() {
    let mut thread = DisplayLoop::new(None, 0);
    thread.step(LoopEvent::Released(false), 0);
    assert!(matches!(thread.action, LoopAction::Stop));
    let mut thread = DisplayLoop::new(None, 0);
    thread.step(LoopEvent::Released(true), 0);
    thread.step(LoopEvent::Closed(None), 0);
    assert!(matches!(thread.action, LoopAction::Stop));
    let mut thread = DisplayLoop::new(None, 0);
    thread.step(LoopEvent::Released(true), 0);
    thread.step(LoopEvent::Closed(Some(true)), 0);
    thread.step(LoopEvent::PendingReleased(false), 0);
    assert!(matches!(thread.action, LoopAction::Stop));
    let mut thread = DisplayLoop::new(Some(info(1)), 0);
    thread.step(LoopEvent::Released(true), 0);
    thread.step(LoopEvent::Closed(Some(false)), 0);
    thread.step(LoopEvent::Taken(None), 0);
    assert!(matches!(thread.action, LoopAction::Stop));
}

#[test]
fn reason_for_waiting() {
    assert_eq!(waiting_reason(None), "display unavailable");
    assert_eq!(waiting_reason(Some("no card".to_string())), "no card");
}

#[test]
fn raw_configuration() {
    let config = RawDisplayConfig {
        format: PixelFormat::I420,
        frame_width: 1280,
        frame_height: 720,
        preferred_mode: None,
    };
    assert_eq!(config.frame_size(), 1_382_400);
    assert!(check_frame_size(10, 10).is_ok());
    let e = check_frame_size(10, 11).unwrap_err();
    assert_eq!((e.kind(), message(&e)), (ErrorKind::InvalidInput, "invalid raw frame size"));
}

fn active() -> RawActiveDisplay {
    RawActiveDisplay::new(4, 2, PixelFormat::I420, PixelFormat::NV12)
}

#[test]
fn writable_slots() {
    let a = active();
    assert_eq!((a.buffers, a.current), (3, 0));
    assert_eq!(a.choose_writable_slot(None, None).unwrap(), 1);
    assert_eq!(a.choose_writable_slot(None, Some(1)).unwrap(), 2);
    assert_eq!(a.choose_writable_slot(Some(2), Some(1)).unwrap(), 2);
    let two = RawActiveDisplay { buffers: 2, ..a };
    let e = two.choose_writable_slot(None, Some(1)).unwrap_err();
    assert_eq!(message(&e), "no writable raw scanout buffer available");
}

#[test]
fn uploads_are_checked_and_written() {
    let a = active();
    assert!(a.check_upload(1, 12).is_ok());
    assert_eq!(message(&a.check_upload(1, 11).unwrap_err()), "invalid raw frame size");
    assert_eq!(message(&a.check_upload(3, 12).unwrap_err()), "invalid raw buffer slot");
    let frame = [1, 2, 3, 4, 5, 6, 7, 8, 10, 11, 20, 21];
    let mut mapping = vec![0u8; 12];
    a.upload_frame(&frame, &mut mapping, 4).unwrap();
    assert_eq!(mapping, vec![1, 2, 3, 4, 5, 6, 7, 8, 10, 20, 11, 21]);
    let odd = RawActiveDisplay { fb_format: PixelFormat::RGB, ..a };
    let e = odd.upload_frame(&frame, &mut mapping, 4).unwrap_err();
    assert_eq!(message(&e), "unsupported raw framebuffer conversion");
}

#[test]
fn commits_show_the_slot() {
    let p = Pipeline {
        conn: 1,
        crtc: 2,
        plane: 3,
        props: DisplayProps {
            conn_crtc: 0,
            mode: 0,
            active: 0,
            crtc: 13,
            fb: 14,
            src_x: 0,
            src_y: 0,
            src_w: 0,
            src_h: 0,
            crtc_x: 0,
            crtc_y: 0,
            crtc_w: 0,
            crtc_h: 0,
            zpos: None,
        },
    };
    assert_eq!(commit_request(&p, &vec![7, 8, 9], 1).unwrap(), flip_request(&p, 8));
    let e = commit_request(&p, &vec![7, 8, 9], 3).unwrap_err();
    assert_eq!(message(&e), "invalid raw buffer slot");
}

#[test]
fn raw_frames_take_turns() {
    let mut state = RawDisplayState::new(Some(active()), Some(info(1)));
    assert_eq!(state.frame_target(12, 12).unwrap(), FrameTarget::Slot(1));
    state.frame_uploaded(1);
    assert!(state.is_ready());
    assert_eq!(state.frame_target(12, 12).unwrap(), FrameTarget::Slot(1));
    assert_eq!(state.begin_commit(), Some(1));
    assert_eq!(state.begin_commit(), None);
    assert_eq!(state.frame_target(12, 12).unwrap(), FrameTarget::Slot(2));
    state.frame_uploaded(2);
    assert_eq!(state.begin_commit(), None);
    state.commit_done(true);
    assert_eq!(state.active.unwrap().current, 1);
    assert_eq!(state.begin_commit(), Some(2));
    assert_eq!(state.frame_target(12, 12).unwrap(), FrameTarget::Slot(0));
    state.disconnect();
    assert!(!state.is_active());
    assert_eq!(state.committing_slot, None);
    assert_eq!(state.frame_target(12, 12).unwrap(), FrameTarget::Keep);
    state.keep_frame(vec![1, 2, 3]);
    assert!(state.is_ready());
    assert_eq!(state.kept_frame_slot(), None);
    state.connect(active(), info(2));
    assert_eq!(state.kept_frame_slot(), Some(1));
    assert_eq!(state.take_disconnected_frame(), Some(vec![1, 2, 3]));
    state.kept_frame_done(1, vec![1, 2, 3], false);
    assert_eq!(state.pending_slot, None);
    assert_eq!(state.take_disconnected_frame(), Some(vec![1, 2, 3]));
    state.kept_frame_done(1, vec![1, 2, 3], true);
    assert_eq!(state.pending_slot, Some(1));
    assert_eq!(state.disconnected_frame, None);
    state.keep_frame(vec![4]);
    assert_eq!(state.take_disconnected_frame(), None);
    state.close();
    assert!(state.is_closed());
    assert!(matches!(state.frame_target(12, 12), Err(Error::Simple(ErrorKind::BrokenPipe))));
    let e = state.frame_target(11, 12).unwrap_err();
    assert_eq!((e.kind(), message(&e)), (ErrorKind::InvalidInput, "invalid raw frame size"));
}

#[test]
fn frame_that_could_not_be_written_outlives_the_display() {
    let mut thread = RawLoop::new(0);
    let mut state = RawDisplayState::new(None, None);
    state.keep_frame(vec![7]);
    state.connect(active(), info(1));
    thread.step(RawEvent::Closed(false), 0);
    thread.step(RawEvent::Active(state.is_active()), 0);
    let frame = state.take_disconnected_frame().unwrap();
    thread.step(RawEvent::KeptTaken(true), 0);
    let slot = state.kept_frame_slot().unwrap();
    state.kept_frame_done(slot, frame, false);
    thread.step(RawEvent::KeptPlaced(Err("map".to_string())), 0);
    assert!(matches!(&thread.action, RawAction::Disconnect(r) if r == "map"));
    state.disconnect();
    thread.step(RawEvent::Disconnected, 0);
    assert!(matches!(thread.action, RawAction::CheckClosed));
    assert!(state.active.is_none() && state.info.is_none());
    assert_eq!((state.pending_slot, state.committing_slot), (None, None));
    state.connect(active(), info(2));
    assert_eq!(state.take_disconnected_frame(), Some(vec![7]));
}

#[test]
fn failed_commit_drops_the_display_but_not_the_kept_frame() {
    let mut state = RawDisplayState::new(Some(active()), Some(info(1)));
    state.frame_uploaded(1);
    assert_eq!(state.begin_commit(), Some(1));
    state.frame_uploaded(2);
    state.keep_frame(vec![7]);
    state.commit_done(false);
    assert!(state.active.is_none() && state.info.is_none());
    assert_eq!((state.pending_slot, state.committing_slot), (None, None));
    assert_eq!(state.disconnected_frame, Some(vec![7]));
}

#[test]
fn raw_thread_round() {
    let mut thread = RawLoop::new(0);
    thread.step(RawEvent::Closed(false), 0);
    thread.step(RawEvent::Active(true), 0);
    assert!(matches!(thread.action, RawAction::TakeKept));
    thread.step(RawEvent::KeptTaken(true), 0);
    assert!(matches!(thread.action, RawAction::PlaceKept));
    thread.step(RawEvent::KeptPlaced(Ok(())), 0);
    assert!(thread.expects(&RawEvent::CommitBegun(None)));
    assert!(thread.expects(&RawEvent::Unusable));
    thread.step(RawEvent::CommitBegun(Some(1)), 0);
    assert!(matches!(thread.action, RawAction::Commit(1)));
    thread.step(RawEvent::Committed(Ok(())), 100 * MS);
    assert_eq!(thread.schedule.next_hotplug_check, 850 * MS);
    thread.step(RawEvent::Closed(false), 100 * MS);
    thread.step(RawEvent::Active(true), 850 * MS);
    assert!(matches!(thread.action, RawAction::Scan));
    thread.step(RawEvent::Scanned(Some(info(1)), Ok(info(1))), 860 * MS);
    thread.step(RawEvent::KeptTaken(false), 860 * MS);
    thread.step(RawEvent::CommitBegun(None), 860 * MS);
    assert!(matches!(thread.action, RawAction::Wait(true)));
    assert!(!thread.expects(&RawEvent::Unusable));
    assert_eq!(thread.timeout(true, 860 * MS), 750 * MS);
    thread.step(RawEvent::Waited, 900 * MS);
    thread.step(RawEvent::Closed(true), 900 * MS);
    assert!(matches!(thread.action, RawAction::Stop));
}

#[test]
fn raw_thread_gives_the_display_up() {
    for (known, found, reason) in [
        (Some(info(1)), Ok(info(2)), "display topology changed"),
        (None, Ok(info(2)), "display topology changed"),
        (Some(info(1)), Err("gone".to_string()), "gone"),
    ] {
        let mut thread = RawLoop::new(0);
        thread.step(RawEvent::Closed(false), 750 * MS);
        thread.step(RawEvent::Active(true), 750 * MS);
        thread.step(RawEvent::Scanned(known, found), 750 * MS);
        assert!(matches!(&thread.action, RawAction::Disconnect(r) if r == reason));
    }
    let mut thread = RawLoop::new(0);
    thread.step(RawEvent::Closed(false), 0);
    thread.step(RawEvent::Active(true), 0);
    thread.step(RawEvent::KeptTaken(true), 0);
    thread.step(RawEvent::KeptPlaced(Err("no".to_string())), 0);
    assert!(matches!(&thread.action, RawAction::Disconnect(r) if r == "no"));
    thread.step(RawEvent::Disconnected, 5 * MS);
    thread.step(RawEvent::Closed(false), 5 * MS);
    thread.step(RawEvent::Active(false), 5 * MS);
    assert!(matches!(thread.action, RawAction::Connect));
    thread.step(RawEvent::Connected(false), 10 * MS);
    assert!(matches!(thread.action, RawAction::Wait(false)));
    assert_eq!(thread.timeout(false, 10 * MS), 250 * MS);
    thread.step(RawEvent::Waited, 20 * MS);
    thread.step(RawEvent::Closed(false), 20 * MS);
    thread.step(RawEvent::Active(false), 20 * MS);
    assert!(matches!(thread.action, RawAction::Wait(false)));
    thread.step(RawEvent::Waited, 260 * MS);
    thread.step(RawEvent::Closed(false), 260 * MS);
    thread.step(RawEvent::Active(false), 260 * MS);
    thread.step(RawEvent::Connected(true), 300 * MS);
    assert_eq!(thread.schedule.next_hotplug_check, 1050 * MS);
    thread.step(RawEvent::Unusable, 300 * MS);
    assert!(matches!(thread.action, RawAction::Stop));
}

#[test]
fn failed_commit_gives_the_raw_display_up() {
    let mut thread = RawLoop::new(0);
    thread.step(RawEvent::Closed(false), 0);
    thread.step(RawEvent::Active(true), 0);
    thread.step(RawEvent::KeptTaken(false), 0);
    thread.step(RawEvent::CommitBegun(Some(2)), 0);
    thread.step(RawEvent::Committed(Err("busy".to_string())), 0);
    assert!(matches!(&thread.action, RawAction::Disconnect(r) if r == "busy"));
}

#[test]
fn raw_thread_starts() {
    assert_eq!(start(Some(true), Some(false)), RawStart::Return);
    assert_eq!(start(Some(false), Some(false)), RawStart::Announce);
    assert_eq!(start(None, Some(false)), RawStart::Announce);
    assert_eq!(start(Some(false), Some(true)), RawStart::Work);
    assert_eq!(start(Some(false), None), RawStart::Work);
}

#[test]
fn sink_cycles_through_its_buffers() {
    let mut sink = SinkDisplay::new(4, 2, PixelFormat::I420);
    assert_eq!(sink.fb_fmt, PixelFormat::NV12);
    let mut slots = Vec::new();
    for _ in 0..4 {
        let slot = sink.next_slot(12).unwrap();
        sink.shown(slot);
        slots.push(slot);
    }
    assert_eq!(slots, vec![1, 2, 0, 1]);
    let e = sink.next_slot(13).unwrap_err();
    assert_eq!((e.kind(), message(&e)), (ErrorKind::Other, "invalid frame size"));
    let frame = [1, 2, 3, 4, 5, 6, 7, 8, 10, 11, 20, 21];
    let mut mapping = vec![0u8; 12];
    sink.write_frame(&frame, &mut mapping, 4);
    assert_eq!(mapping, vec![1, 2, 3, 4, 5, 6, 7, 8, 10, 20, 11, 21]);
}

#[test]
fn frames_go_to_displays_of_their_kind() {
    let mut res: DisplayRes<u32, char> = DisplayRes::new(ManagedDisplay::Prime(5));
    assert_eq!(res.prime().ok(), Some(&5));
    assert_eq!(message(&res.raw().err().unwrap()), "display kind mismatch");
    assert!(matches!(res.close(), Some(ManagedDisplay::Prime(5))));
    assert_eq!(message(&res.prime().err().unwrap()), "display closed");
    let mut raw: DisplayRes<u32, char> = DisplayRes::new(ManagedDisplay::Raw('r'));
    assert_eq!(raw.raw().ok(), Some(&'r'));
    assert_eq!(message(&raw.prime().err().unwrap()), "display kind mismatch");
    raw.close();
    assert_eq!(message(&raw.raw().err().unwrap()), "display closed");
}
