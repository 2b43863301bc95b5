use video_transcode::error::{err, Error, ErrorKind};
use video_transcode::mode::{default_mode, pick_mode, pick_raw_mode, ModeInfo};
use video_transcode::pixel_format::{PixelFormat, FOURCC_NV12, FOURCC_RGB888, FOURCC_YUV420};
use video_transcode::prime_display;
use video_transcode::property::{
    display_wanted, find_prop, modeset_wanted, plane_type_value, Object, ObjectProps, PropName, PropertyInfo,
};
use video_transcode::setup::{plan_display, plan_raw_display};
use video_transcode::sink;
use video_transcode::topology::{
    build_display_info, crtc_index, driver_is_vc4, encoder_crtc, find_connector,
    find_plane_for_crtc, find_raw_plane_for_crtc, find_vc4_card, first_encoder, is_card_name,
    pick_connected_connector, pick_plane, plane_settles_choice, raw_plane_settles_choice,
    CardProbe, ConnectorInfo, Interface, PlaneInfo,
};

fn message(e: &Error) -> &str {
    match e {
        Error::Custom { message, .. } => message,
        Error::Simple(_) => "",
    }
}

fn mode(width: u16, height: u16, vrefresh: u32) -> ModeInfo {
    ModeInfo { width, height, vrefresh }
}

fn connector(handle: u32, connected: bool, interface: Interface, modes: Vec<ModeInfo>) -> ConnectorInfo {
    ConnectorInfo {
        handle,
        connected,
        interface,
        interface_name: format!("{interface:?}"),
        modes,
        encoders: vec![handle + 100, handle + 101],
    }
}

fn plane(handle: u32, crtcs: Vec<u32>, formats: Vec<u32>, type_value: Option<u64>) -> PlaneInfo {
    PlaneInfo { handle, crtcs, formats, type_value }
}

#[test]
fn errors_carry_kind_and_message() {
    let e = err("boom");
    assert_eq!(e.kind(), ErrorKind::Other);
    assert_eq!(message(&e), "boom");
    let e = Error::in_step(ErrorKind::NotFound, "open card", "gone");
    assert_eq!(e.kind(), ErrorKind::NotFound);
    assert_eq!(message(&e), "open card: gone");
    assert_eq!(Error::Simple(ErrorKind::BrokenPipe).kind(), ErrorKind::BrokenPipe);
}

#[test]
fn preferred_mode_is_picked_if_offered() {
    let modes = vec![mode(1280, 720, 60), mode(1920, 1080, 30), mode(1920, 1080, 60)];
    assert_eq!(pick_mode(&modes, Some((1920, 1080, 60))).unwrap(), 2);
    assert_eq!(pick_mode(&modes, Some((1920, 1080, 50))).unwrap(), 2);
    assert_eq!(pick_mode(&modes, Some((1920, 1080, 40))).unwrap(), 1);
    assert_eq!(pick_mode(&modes, Some((1920, 1080, 45))).unwrap(), 1);
    assert_eq!(pick_mode(&modes, Some((640, 480, 60))).unwrap(), 0);
    assert_eq!(pick_mode(&modes, None).unwrap(), 0);
    assert_eq!(default_mode(&modes).unwrap(), 0);
    let e = pick_mode(&vec![], Some((640, 480, 60))).unwrap_err();
    assert_eq!(e.kind(), ErrorKind::NotFound);
    assert_eq!(message(&e), "connector has no modes");
    assert_eq!(message(&default_mode(&vec![]).unwrap_err()), "connector has no modes");
}

#[test]
fn raw_mode_has_the_size_of_the_frames() {
    let modes = vec![mode(1280, 720, 60), mode(1920, 1080, 30), mode(1920, 1080, 60)];
    assert_eq!(pick_raw_mode(&modes, 1920, 1080, None).unwrap(), 1);
    assert_eq!(pick_raw_mode(&modes, 1920, 1080, Some((1920, 1080, 55))).unwrap(), 2);
    let e = pick_raw_mode(&modes, 1920, 1080, Some((1280, 720, 60))).unwrap_err();
    assert_eq!(e.kind(), ErrorKind::InvalidInput);
    assert_eq!(
        message(&e),
        "preferred mode 1280x720 does not match raw frame size 1920x1080"
    );
    let e = pick_raw_mode(&modes, 800, 600, None).unwrap_err();
    assert_eq!(e.kind(), ErrorKind::NotFound);
    assert_eq!(message(&e), "no display mode matches raw frame size 800x600");
}

#[test]
fn raw_mode_agrees_with_the_preference() {
    let modes = vec![mode(1280, 720, 60), mode(1920, 1080, 30), mode(1920, 1080, 60)];
    for refresh in [24, 30, 45, 50, 60, 120] {
        let preferred = Some((1920, 1080, refresh));
        assert_eq!(
            pick_mode(&modes, preferred).unwrap(),
            pick_raw_mode(&modes, 1920, 1080, preferred).unwrap()
        );
    }
}

#[test]
fn what_comes_after_a_settled_choice_does_not_matter() {
    let mut conns = vec![
        connector(1, true, Interface::Other, vec![mode(1, 1, 1)]),
        connector(2, true, Interface::HdmiA, vec![mode(1, 1, 1)]),
    ];
    assert_eq!(find_connector(&conns, true), Some(1));
    conns.push(connector(3, true, Interface::HdmiA, vec![mode(1, 1, 1)]));
    assert_eq!(find_connector(&conns, true), Some(1));
}

#[test]
fn hdmi_is_preferred_on_request() {
    let conns = vec![
        connector(1, false, Interface::HdmiA, vec![mode(1, 1, 1)]),
        connector(2, true, Interface::HdmiA, vec![]),
        connector(3, true, Interface::Other, vec![mode(1, 1, 1)]),
        connector(4, true, Interface::HdmiB, vec![mode(1, 1, 1)]),
    ];
    assert_eq!(pick_connected_connector(&conns, false).unwrap(), 2);
    assert_eq!(pick_connected_connector(&conns, true).unwrap(), 3);
    assert_eq!(find_connector(&conns, true), Some(3));
    assert!(conns[3].settles_choice(true));
    assert!(!conns[2].settles_choice(true));
    assert!(conns[2].settles_choice(false));
    let none = vec![connector(1, false, Interface::HdmiA, vec![mode(1, 1, 1)])];
    let e = pick_connected_connector(&none, true).unwrap_err();
    assert_eq!((e.kind(), message(&e)), (ErrorKind::NotFound, "no connected connector"));
    let e = sink::pick_connected_connector(&none).unwrap_err();
    assert_eq!((e.kind(), message(&e)), (ErrorKind::Other, "No connected connector"));
    assert_eq!(sink::pick_connected_connector(&conns).unwrap(), 2);
    let e = prime_display::pick_route(&none).unwrap_err();
    assert!(matches!(e, Error::Simple(ErrorKind::NotFound)));
    let route = prime_display::pick_route(&conns).unwrap();
    assert_eq!((route.connector, route.encoder), (2, 103));
}

#[test]
fn encoder_and_crtc() {
    assert_eq!(first_encoder(&vec![5, 6]).unwrap(), 5);
    assert_eq!(message(&first_encoder(&vec![]).unwrap_err()), "connector has no encoders");
    assert_eq!(encoder_crtc(Some(8)).unwrap(), 8);
    assert_eq!(message(&encoder_crtc(None).unwrap_err()), "encoder has no crtc");
    let mut conn = connector(1, true, Interface::Other, vec![mode(1, 1, 1)]);
    assert_eq!(sink::pick_encoder(&conn).unwrap(), 101);
    conn.encoders.clear();
    assert_eq!(message(&sink::pick_encoder(&conn).unwrap_err()), "connector has no encoders");
    assert!(prime_display::pick_route(&vec![conn]).is_err());
    assert_eq!(sink::pick_crtc(Some(3)).unwrap(), 3);
    assert_eq!(message(&sink::pick_crtc(None).unwrap_err()), "encoder has no crtc");
    assert_eq!(prime_display::pick_crtc(Some(3)).unwrap(), 3);
    assert!(matches!(
        prime_display::pick_crtc(None),
        Err(Error::Simple(ErrorKind::NotFound))
    ));
    assert_eq!(crtc_index(&vec![4, 9, 9], 9), Some(1));
    assert_eq!(crtc_index(&vec![4, 9], 1), None);
    assert_eq!(sink::pick_mode(&vec![mode(2, 1, 60)]).unwrap(), mode(2, 1, 60));
    assert_eq!(message(&sink::pick_mode(&vec![]).unwrap_err()), "connector has no modes");
    assert_eq!(prime_display::pick_mode(&vec![mode(2, 1, 60)]).unwrap(), 0);
    assert!(prime_display::pick_mode(&vec![]).is_err());
}

#[test]
fn overlay_is_preferred_on_vc4() {
    let planes = vec![
        plane(10, vec![1], vec![FOURCC_NV12], Some(1)),
        plane(11, vec![2], vec![FOURCC_NV12], Some(0)),
        plane(12, vec![1], vec![FOURCC_RGB888], Some(0)),
        plane(13, vec![1, 2], vec![FOURCC_RGB888, FOURCC_NV12], Some(0)),
    ];
    assert_eq!(pick_plane(&planes, 1, false).unwrap(), 0);
    assert_eq!(pick_plane(&planes, 1, true).unwrap(), 3);
    assert!(plane_settles_choice(&planes[3], 1, true));
    assert!(!plane_settles_choice(&planes[3], 1, false));
    assert!(planes[3].plane_is_overlay());
    assert!(planes[0].plane_is_primary());
    let e = pick_plane(&planes, 3, true).unwrap_err();
    assert_eq!((e.kind(), message(&e)), (ErrorKind::NotFound, "no suitable NV12 plane"));
    assert_eq!(find_plane_for_crtc(&planes, 2, None), Some(1));
    assert_eq!(find_plane_for_crtc(&planes, 1, Some(FOURCC_RGB888)), Some(2));
    assert_eq!(find_plane_for_crtc(&planes, 7, None), None);
    assert_eq!(sink::pick_plane(&planes, 2).unwrap(), 11);
    assert_eq!(message(&sink::pick_plane(&planes, 7).unwrap_err()), "No compatible plane found");
    assert_eq!(prime_display::pick_plane(&planes, 1, FOURCC_RGB888).unwrap(), 12);
    assert!(matches!(
        prime_display::pick_plane(&planes, 2, FOURCC_YUV420),
        Err(Error::Simple(ErrorKind::NotFound))
    ));
}

#[test]
fn raw_frames_keep_their_format_where_a_plane_takes_it() {
    let planes = vec![
        plane(10, vec![1], vec![FOURCC_NV12], Some(1)),
        plane(11, vec![1], vec![FOURCC_YUV420], Some(0)),
    ];
    assert_eq!(
        find_raw_plane_for_crtc(&planes, 1, PixelFormat::I420, false).unwrap(),
        (1, PixelFormat::I420)
    );
    assert!(raw_plane_settles_choice(&planes[1], 1, PixelFormat::I420, false));
    assert!(!raw_plane_settles_choice(&planes[1], 1, PixelFormat::I420, true));
    assert_eq!(
        find_raw_plane_for_crtc(&planes, 1, PixelFormat::I420, true).unwrap(),
        (0, PixelFormat::NV12)
    );
    let e = find_raw_plane_for_crtc(&planes, 1, PixelFormat::RGB, false).unwrap_err();
    assert_eq!(message(&e), "no compatible plane found for raw format");
}

#[test]
fn plans_describe_what_was_chosen() {
    let conn = connector(4, true, Interface::HdmiA, vec![mode(1280, 720, 60), mode(640, 480, 75)]);
    let planes = vec![plane(10, vec![9], vec![FOURCC_NV12], Some(1))];
    let a = plan_display("/dev/dri/card1", &conn, 9, &planes, Some((640, 480, 75)), true).unwrap();
    assert_eq!((a.mode, a.plane), (1, 0));
    assert_eq!(a.info.card_path, "/dev/dri/card1");
    assert_eq!(a.info.connector_id, 4);
    assert_eq!(a.info.connector_type, "HdmiA");
    assert_eq!(a.info.crtc_id, 9);
    assert_eq!(a.info.plane_id, 10);
    assert_eq!(a.info.mode, (640, 480, 75));
    let b = plan_display("/dev/dri/card1", &conn, 9, &planes, Some((640, 480, 75)), true).unwrap();
    assert!(a.info.is_same(&b.info));
    assert!(a.info.copy().is_same(&a.info));
    let c = plan_display("/dev/dri/card1", &conn, 9, &planes, None, true).unwrap();
    assert!(!a.info.is_same(&c.info));
    let e = plan_display("/dev/dri/card1", &conn, 8, &planes, None, true).unwrap_err();
    assert_eq!(message(&e), "no suitable NV12 plane");
    let empty = connector(4, true, Interface::HdmiA, vec![]);
    let e = plan_display("/dev/dri/card1", &empty, 8, &planes, None, true).unwrap_err();
    assert_eq!(message(&e), "connector has no modes");

    let raw = plan_raw_display("c", &conn, 1, 9, &planes, PixelFormat::I420, false).unwrap();
    assert_eq!((raw.plane, raw.fb_format), (0, PixelFormat::NV12));
    assert!(raw.info.is_same(&build_display_info("c", &conn, 9, 10, mode(640, 480, 75))));
    assert!(plan_raw_display("c", &conn, 1, 9, &planes, PixelFormat::RGB, false).is_err());
}

#[test]
fn vc4_cards() {
    assert!(driver_is_vc4(b"vc4"));
    assert!(driver_is_vc4(b"my vc4 driver"));
    assert!(!driver_is_vc4(b"v3d"));
    assert!(!driver_is_vc4(b""));
    assert!(is_card_name(b"card0"));
    assert!(!is_card_name(b"renderD128"));
    let probe = |name: &[u8], driver: Option<&[u8]>| CardProbe {
        name: name.to_vec(),
        driver: driver.map(|d| d.to_vec()),
    };
    let probes = vec![
        probe(b"renderD128", Some(b"vc4")),
        probe(b"card0", None),
        probe(b"card1", Some(b"v3d")),
        probe(b"card2", Some(b"vc4")),
        probe(b"card3", Some(b"vc4")),
    ];
    assert_eq!(find_vc4_card(&probes).unwrap(), 3);
    let e = find_vc4_card(&vec![]).unwrap_err();
    assert_eq!((e.kind(), message(&e)), (ErrorKind::NotFound, "No vc4 DRM device"));
}

fn props(names: &[&str], first: u32) -> Vec<PropertyInfo> {
    names
        .iter()
        .enumerate()
        .map(|(i, name)| PropertyInfo {
            handle: first + i as u32,
            name: name.to_string(),
            value: i as u64,
        })
        .collect()
}

fn objects() -> ObjectProps {
    ObjectProps {
        connector: props(&["EDID", "CRTC_ID"], 10),
        crtc: props(&["ACTIVE", "MODE_ID"], 20),
        plane: props(
            &[
                "type", "FB_ID", "CRTC_ID", "CRTC_X", "CRTC_Y", "CRTC_W", "CRTC_H", "SRC_X",
                "SRC_Y", "SRC_W", "SRC_H", "ZPOS",
            ],
            30,
        ),
    }
}

#[test]
fn properties_are_found_by_name() {
    let all = objects();
    assert_eq!(find_prop(&all.plane, PropName::FbId).unwrap(), 31);
    assert_eq!(all.find(Object::Connector, PropName::CrtcId).unwrap(), 11);
    assert_eq!(plane_type_value(&all.plane), Some(0));
    assert_eq!(plane_type_value(&all.crtc), None);
    let e = find_prop(&all.crtc, PropName::FbId).unwrap_err();
    assert_eq!((e.kind(), message(&e)), (ErrorKind::NotFound, "property FB_ID not found"));
    let found = all.find_display_props().unwrap();
    assert_eq!(found.conn_crtc, 11);
    assert_eq!((found.active, found.mode), (20, 21));
    assert_eq!((found.fb, found.crtc), (31, 32));
    assert_eq!((found.crtc_x, found.crtc_y, found.crtc_w, found.crtc_h), (33, 34, 35, 36));
    assert_eq!((found.src_x, found.src_y, found.src_w, found.src_h), (37, 38, 39, 40));
    assert_eq!(found.zpos, Some(41));
    assert_eq!(all.find_modeset_props().unwrap(), found);
    assert_eq!(display_wanted()[0], (Object::Plane, PropName::FbId));
    assert_eq!(modeset_wanted()[0], (Object::Connector, PropName::CrtcId));
    assert_eq!((display_wanted().len(), modeset_wanted().len()), (13, 13));
    assert_eq!(sink::find_props(&all).unwrap(), found);
    assert_eq!(prime_display::find_props(&all).unwrap().zpos, None);
}

#[test]
fn first_missing_property_is_reported() {
    let mut all = objects();
    all.connector.clear();
    all.plane.retain(|p| p.name != "FB_ID" && p.name != "ZPOS");
    assert_eq!(message(&all.find_display_props().unwrap_err()), "property FB_ID not found");
    assert_eq!(message(&all.find_modeset_props().unwrap_err()), "property CRTC_ID not found");
    let e = sink::find_props(&all).unwrap_err();
    assert_eq!((e.kind(), message(&e)), (ErrorKind::Other, "property not found"));
    assert!(matches!(
        prime_display::find_props(&all),
        Err(Error::Simple(ErrorKind::NotFound))
    ));
    let mut no_zpos = objects();
    no_zpos.plane.retain(|p| p.name != "ZPOS");
    assert_eq!(no_zpos.find_display_props().unwrap().zpos, None);
}
