//! Infrared classification and auto-detection.

use facelock::device::{
    auto_detect_device, classify_ir_sources, classify_ir_sources_with_ids, has_ir_name_token,
    ir_source, ir_source_resolved, ir_source_with_quirks, is_ir_camera, is_ir_camera_resolved,
    is_ir_camera_with_quirks, list_devices, pick_auto_device, query_device, validate_device,
    video_device_path, video_device_paths, DeviceInfo, DeviceProbe, DriverCaps, FacelockError,
    FormatInfo, FormatProbe, FrameSize, IrSource,
};
use facelock::quirks::{Quirk, QuirksDb};

fn device_with(name: &str, fourccs: &[&str]) -> DeviceInfo {
    DeviceInfo {
        path: "/dev/nonexistent_test_video".into(),
        name: name.into(),
        driver: "uvcvideo".into(),
        capabilities: vec![],
        formats: fourccs
            .iter()
            .map(|f| FormatInfo {
                fourcc: (*f).into(),
                description: "test".into(),
                sizes: vec![(640, 480)],
            })
            .collect(),
    }
}

#[test]
fn is_ir_camera_grey_format_alone_is_not_ir() {
    // Merely enumerating GREY is NOT proof of IR. An RGB webcam that
    // advertises a GREY format with no IR name token / quirk is not-IR.
    let device = device_with("USB Camera", &["GREY"]);
    assert!(!is_ir_camera(&device));
    assert_eq!(ir_source(&device), IrSource::NotIr);
}

#[test]
fn ir_classification_corpus() {
    // Real RGB camera name strings must classify not-IR, even the ones
    // whose names contain the substring "ir" but not the token "ir".
    for name in [
        "Integrated Webcam",
        "USB2.0 HD UVC WebCam",
        "AIR-Cam",
        "Sirius",
        "Chicony USB2.0 Camera",
    ] {
        let dev = device_with(name, &["YUYV", "MJPG"]);
        assert!(!is_ir_camera(&dev), "{name} should be not-IR");
    }
    // A GREY-only RGB cam is still not-IR without corroboration.
    assert!(!is_ir_camera(&device_with("Generic Cam", &["GREY"])));
    // A name IR token classifies IR.
    assert_eq!(
        ir_source(&device_with("Integrated IR Camera", &["YUYV"])),
        IrSource::Name
    );
    assert_eq!(
        ir_source(&device_with("Infrared Camera", &["MJPG"])),
        IrSource::Name
    );
}

#[test]
fn is_ir_camera_mjpg_only() {
    let device = device_with("USB Camera", &["MJPG"]);
    assert!(!is_ir_camera(&device));
}

#[test]
fn is_ir_camera_infrared_name() {
    // Name token "infrared" is sufficient on its own.
    let device = device_with("Infrared Camera", &["MJPG"]);
    assert!(is_ir_camera(&device));
    assert_eq!(ir_source(&device), IrSource::Name);
}

#[test]
fn is_ir_camera_y16_name_token_corroborated_is_format() {
    // Y16 native format corroborated by an IR name token → Format provenance.
    let device = device_with("Integrated IR Camera", &["Y16 "]);
    assert!(is_ir_camera(&device));
    assert_eq!(ir_source(&device), IrSource::Format);
}

#[test]
fn is_ir_camera_y16_without_name_is_not_ir() {
    // Y16 alone (no IR name token, no quirk) is no proof of IR.
    let device = device_with("Depth Camera", &["Y16 "]);
    assert!(!is_ir_camera(&device));
}

fn device_at(path: &str, name: &str, fourccs: &[&str]) -> DeviceInfo {
    DeviceInfo {
        path: path.into(),
        ..device_with(name, fourccs)
    }
}

fn brio_quirk(format_preference: Option<&str>) -> Quirk {
    Quirk {
        vendor_id: Some("046d".into()),
        product_id: Some("085e".into()),
        name_pattern: None,
        force_ir: Some(true),
        emitter_xu_guid: None,
        emitter_xu_selector: None,
        warmup_frames: Some(1),
        format_preference: format_preference.map(Into::into),
        rotation: None,
        notes: Some("Logitech BRIO 4K with IR sensor".into()),
    }
}

fn brio_ids() -> Option<(String, String)> {
    Some(("046d".into(), "085e".into()))
}

#[test]
fn brio_multi_node_only_grey_node_classifies_ir() {
    // One physical
    // USB camera exposes TWO capture nodes sharing the same VID:PID —
    // /dev/video0 (RGB sensor, YUYV/MJPG) and /dev/video2 (IR sensor, native
    // GREY). A force_ir quirk means "this USB device has an IR sensor", NOT
    // "every capture node of it is IR": only the GREY-native node is IR.
    let mut db = QuirksDb::default();
    db.push_quirk_for_test(brio_quirk(Some("GREY")));

    let rgb = device_at("/dev/video0", "Logitech BRIO", &["YUYV", "MJPG"]);
    let ir = device_at("/dev/video2", "Logitech BRIO", &["GREY"]);
    let devices = [rgb, ir];
    let ids = vec![brio_ids(), brio_ids()];

    let sources = classify_ir_sources_with_ids(&devices, Some(&db), &ids);
    assert_eq!(
        sources[0],
        IrSource::NotIr,
        "RGB sibling node must NOT classify IR"
    );
    assert_eq!(
        sources[1],
        IrSource::Quirk,
        "GREY-native node keeps quirk-IR classification"
    );

    // Auto-detect-equivalent selection must pick the IR (GREY) node, not
    // the first enumerated node (the RGB sensor with the white LED).
    let picked = pick_auto_device(&devices, &sources).expect("a device is picked");
    assert_eq!(picked.path, "/dev/video2");
}

#[test]
fn brio_multi_node_disambiguates_without_format_preference() {
    // Even without format_preference on the quirk, the native GREY format
    // alone disambiguates the sibling nodes.
    let mut db = QuirksDb::default();
    db.push_quirk_for_test(brio_quirk(None));

    let devices = [
        device_at("/dev/video0", "Logitech BRIO", &["YUYV", "MJPG"]),
        device_at("/dev/video2", "Logitech BRIO", &["GREY"]),
    ];
    let ids = vec![brio_ids(), brio_ids()];

    let sources = classify_ir_sources_with_ids(&devices, Some(&db), &ids);
    assert_eq!(sources[0], IrSource::NotIr);
    assert_eq!(sources[1], IrSource::Quirk);
}

#[test]
fn quirk_multi_node_without_any_ir_format_trusts_force_ir_for_all() {
    // Some force_ir quirks exist precisely BECAUSE the camera
    // does not advertise an IR-like format. If no sibling node has one,
    // there is no format evidence to disambiguate — trust force_ir for all.
    let mut db = QuirksDb::default();
    db.push_quirk_for_test(brio_quirk(None));

    let devices = [
        device_at("/dev/video0", "Some IR Module", &["YUYV"]),
        device_at("/dev/video2", "Some IR Module", &["MJPG"]),
    ];
    let ids = vec![brio_ids(), brio_ids()];

    let sources = classify_ir_sources_with_ids(&devices, Some(&db), &ids);
    assert_eq!(sources[0], IrSource::Quirk);
    assert_eq!(sources[1], IrSource::Quirk);
    // With no format evidence, selection preserves enumeration order.
    let picked = pick_auto_device(&devices, &sources).expect("a device is picked");
    assert_eq!(picked.path, "/dev/video0");
}

#[test]
fn quirk_single_node_without_ir_format_stays_ir() {
    // A single quirk-matched node with no IR-like format is the whole point
    // of force_ir — it must remain IR.
    let mut db = QuirksDb::default();
    db.push_quirk_for_test(brio_quirk(None));

    let devices = [device_at("/dev/video0", "Oddball IR Module", &["YUYV"])];
    let ids = vec![brio_ids()];

    let sources = classify_ir_sources_with_ids(&devices, Some(&db), &ids);
    assert_eq!(sources[0], IrSource::Quirk);
}

#[test]
fn multi_node_demoted_sibling_keeps_name_heuristic() {
    // A demoted sibling falls back to the (quirk-free) heuristic: an IR
    // name token still classifies it, honestly, as Name.
    let mut db = QuirksDb::default();
    db.push_quirk_for_test(brio_quirk(None));

    let devices = [
        device_at("/dev/video0", "Vendor IR Camera", &["YUYV"]),
        device_at("/dev/video2", "Vendor IR Camera", &["GREY"]),
    ];
    let ids = vec![brio_ids(), brio_ids()];

    let sources = classify_ir_sources_with_ids(&devices, Some(&db), &ids);
    assert_eq!(sources[0], IrSource::Name);
    assert_eq!(sources[1], IrSource::Quirk);
    // Selection still prefers the format-corroborated quirk node.
    let picked = pick_auto_device(&devices, &sources).expect("a device is picked");
    assert_eq!(picked.path, "/dev/video2");
}

#[test]
fn classify_mixed_identities_only_groups_same_usb_device() {
    // Two DIFFERENT USB cameras (different VID:PID) both quirk-matched:
    // no cross-device demotion may happen.
    let mut db = QuirksDb::default();
    db.push_quirk_for_test(brio_quirk(None));
    db.push_quirk_for_test(Quirk {
        vendor_id: Some("8086".into()),
        product_id: Some("0b07".into()),
        name_pattern: None,
        force_ir: Some(true),
        emitter_xu_guid: None,
        emitter_xu_selector: None,
        warmup_frames: None,
        format_preference: None,
        rotation: None,
        notes: None,
    });
    let devices = [
        device_at("/dev/video0", "RealSense", &["YUYV"]),
        device_at("/dev/video2", "Logitech BRIO", &["GREY"]),
    ];
    let ids = vec![Some(("8086".into(), "0b07".into())), brio_ids()];

    let sources = classify_ir_sources_with_ids(&devices, Some(&db), &ids);
    // Different physical devices — both keep their quirk classification.
    assert_eq!(sources[0], IrSource::Quirk);
    assert_eq!(sources[1], IrSource::Quirk);
}

#[test]
fn list_devices_does_not_crash() {
    // Nothing to probe is nothing found.
    assert!(list_devices(&Vec::new()).is_empty());
}

fn named_quirk(pattern: &str, force_ir: bool) -> Quirk {
    Quirk {
        vendor_id: None,
        product_id: None,
        name_pattern: Some(pattern.into()),
        force_ir: Some(force_ir),
        emitter_xu_guid: None,
        emitter_xu_selector: None,
        warmup_frames: None,
        format_preference: None,
        rotation: None,
        notes: None,
    }
}

#[test]
fn a_named_quirk_decides_in_both_directions() {
    let mut db = QuirksDb::default();
    db.push_quirk_for_test(named_quirk("(?i)generic.*", true));
    let device = device_with("Generic Camera", &["YUYV"]);
    assert!(is_ir_camera_with_quirks(&device, Some(&db), None));
    assert_eq!(ir_source_with_quirks(&device, Some(&db), None), IrSource::Quirk);

    let mut db_off = QuirksDb::default();
    db_off.push_quirk_for_test(named_quirk("(?i).*ir.*", false));
    let ir_named = device_with("Integrated IR Camera", &["GREY"]);
    assert!(!is_ir_camera_with_quirks(&ir_named, Some(&db_off), None));
}

#[test]
fn a_pattern_without_wildcards_has_to_be_the_whole_name() {
    let mut db = QuirksDb::default();
    db.push_quirk_for_test(named_quirk("(?i)generic", true));
    let device = device_with("Generic Camera", &["YUYV"]);
    assert!(!is_ir_camera_with_quirks(&device, Some(&db), None));
}

#[test]
fn nodes_without_an_identity_keep_a_named_quirk() {
    let mut db = QuirksDb::default();
    db.push_quirk_for_test(named_quirk("(?i)generic.*", true));
    let devices = [
        device_at("/dev/video0", "Generic Camera", &["YUYV"]),
        device_at("/dev/video2", "Generic Camera", &["GREY"]),
    ];
    let ids = vec![None, None];
    let sources = classify_ir_sources_with_ids(&devices, Some(&db), &ids);
    assert_eq!(sources[0], IrSource::Quirk);
    assert_eq!(sources[1], IrSource::Quirk);
    assert_eq!(classify_ir_sources(&devices, Some(&db), &ids), sources);
}

#[test]
fn a_device_is_classified_among_its_siblings() {
    let mut db = QuirksDb::default();
    db.push_quirk_for_test(brio_quirk(None));
    let listed = [
        device_at("/dev/video0", "Logitech BRIO", &["YUYV", "MJPG"]),
        device_at("/dev/video2", "Logitech BRIO", &["GREY"]),
    ];
    let ids = vec![brio_ids(), brio_ids()];
    let own = brio_ids();
    assert_eq!(
        ir_source_resolved(&listed[0], own.as_ref(), Some(&db), &listed, &ids),
        IrSource::NotIr
    );
    assert!(is_ir_camera_resolved(&listed[1], own.as_ref(), Some(&db), &listed, &ids));
    // By itself, without its sibling, the first node would keep the quirk.
    assert!(is_ir_camera_resolved(&listed[0], own.as_ref(), Some(&db), &[], &[]));
}

#[test]
fn auto_detection_takes_the_confirmed_node_or_says_that_there_is_none() {
    let mut db = QuirksDb::default();
    db.push_quirk_for_test(brio_quirk(None));
    let devices = [
        device_at("/dev/video0", "Logitech BRIO", &["YUYV", "MJPG"]),
        device_at("/dev/video2", "Logitech BRIO", &["GREY"]),
    ];
    let picked = auto_detect_device(&devices, &db, &[brio_ids(), brio_ids()]).unwrap();
    assert_eq!(picked.path, "/dev/video2");

    match auto_detect_device(&[], &db, &[]) {
        Err(FacelockError::Camera(message)) => assert_eq!(message, "no video devices found"),
        Ok(_) => panic!("there is no device"),
    }
}

#[test]
fn the_name_token_stands_alone() {
    assert!(has_ir_name_token("HP IR Camera"));
    assert!(has_ir_name_token("cam-ir:0"));
    assert!(has_ir_name_token("Infrared"));
    assert!(!has_ir_name_token("Sirius"));
    assert!(!has_ir_name_token("AIR-Cam"));
    assert!(!has_ir_name_token(""));
}

#[test]
fn devices_are_looked_for_at_numbered_paths() {
    assert_eq!(video_device_path(7), "/dev/video7");
    let paths = video_device_paths();
    assert_eq!(paths.len(), 64);
    assert_eq!(paths[0], "/dev/video0");
    assert_eq!(paths[63], "/dev/video63");
}

fn answering(video_capture: bool) -> DeviceProbe {
    DeviceProbe::Answered {
        caps: DriverCaps {
            card: "Cam".into(),
            driver: "uvcvideo".into(),
            video_capture,
            streaming: true,
        },
        formats: Some(vec![FormatProbe {
            fourcc: "YUYV".into(),
            description: "YUYV 4:2:2".into(),
            sizes: Some(vec![
                FrameSize::Discrete { width: 640, height: 480 },
                FrameSize::Stepwise {
                    min_width: 16,
                    min_height: 8,
                    max_width: 1920,
                    max_height: 1080,
                },
            ]),
        }]),
    }
}

#[test]
fn an_answering_device_is_described() {
    let info = validate_device("/dev/video0", &answering(true)).unwrap();
    assert_eq!(info.path, "/dev/video0");
    assert_eq!(info.name, "Cam");
    assert_eq!(info.driver, "uvcvideo");
    assert_eq!(info.capabilities, vec!["VIDEO_CAPTURE", "STREAMING"]);
    assert_eq!(info.formats[0].sizes, vec![(640, 480), (16, 8), (1920, 1080)]);
}

#[test]
fn a_path_that_is_no_capture_device_says_why() {
    let cases = [
        (DeviceProbe::Unopened { reason: "no such file".into() }, "/dev/video9: no such file"),
        (
            DeviceProbe::Unqueryable { reason: "broken".into() },
            "/dev/video9: failed to query caps: broken",
        ),
        (answering(false), "/dev/video9: not a video capture device"),
    ];
    for (probe, expected) in cases {
        match query_device("/dev/video9", &probe) {
            Err(FacelockError::Camera(message)) => assert_eq!(message, expected),
            Ok(_) => panic!("{expected}"),
        }
    }
}

#[test]
fn only_capture_devices_are_listed() {
    let probes = vec![
        ("/dev/video0".to_string(), answering(true)),
        ("/dev/video1".to_string(), answering(false)),
        ("/dev/video2".to_string(), DeviceProbe::Unopened { reason: "gone".into() }),
        ("/dev/video3".to_string(), answering(true)),
    ];
    let found = list_devices(&probes);
    assert_eq!(found.len(), 2);
    assert_eq!(found[0].path, "/dev/video0");
    assert_eq!(found[1].path, "/dev/video3");
}
