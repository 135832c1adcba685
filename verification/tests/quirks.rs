//! Hardware quirks and the identity they go by.

use facelock::device::DeviceInfo;
use facelock::quirks::{
    by_path_name, device_fingerprint, name_matches, quirks_file_names, read_usb_ids,
    sysfs_attr_paths, try_read_sysfs_attr, wildcard_match, ByPathLink, DeviceFingerprint, Quirk,
    QuirkMatchKind, QuirksDb, SysfsAttribute,
};

fn make_device(name: &str) -> DeviceInfo {
    DeviceInfo {
        path: "/dev/nonexistent_test_video".into(),
        name: name.into(),
        driver: "uvcvideo".into(),
        capabilities: vec![],
        formats: vec![],
    }
}

#[test]
fn name_matches_case_insensitive() {
    assert!(name_matches(
        "(?i).*integrated.*ir camera.*",
        "Integrated IR Camera"
    ));
    assert!(name_matches(
        "(?i).*integrated.*infrared camera.*",
        "Integrated Infrared Camera"
    ));
}

#[test]
fn name_matches_anchors_start_and_end() {
    // No wildcard at either end: the pattern must describe the WHOLE name.
    assert!(name_matches("(?i)hp ir camera", "HP IR Camera"));
    assert!(!name_matches("(?i)hp ir camera", "HP IR Camera 5MP"));
    assert!(!name_matches("(?i)hp ir camera", "New HP IR Camera"));
}

#[test]
fn name_matches_trailing_wildcard_anchors_start_only() {
    assert!(name_matches("(?i)hp.* ir.*", "HP IR Camera 5MP"));
    // Vendor token must still be the literal start of the name.
    assert!(!name_matches("(?i)hp.* ir.*", "New HP IR Camera"));
    assert!(!name_matches("(?i)dell.* ir.*", "Logitech Webcam"));
}

#[test]
fn name_matches_case_sensitive() {
    assert!(name_matches("IR Camera", "IR Camera"));
    assert!(!name_matches("IR Camera", "ir camera"));
    assert!(!name_matches("IR Camera", "My IR Camera"));
}

#[test]
fn name_matches_anchoring_rejects_substring_false_positive() {
    // The pattern must not
    // match an unrelated RGB webcam whose name merely contains the "ir"
    // substring ("Sirius") or ("AIR-Cam") ahead of "camera" elsewhere.
    assert!(!name_matches("(?i)ir.*camera", "Sirius Camera"));
    assert!(!name_matches("(?i)ir.*camera", "AIR-Cam"));
    // A real anchored pattern for the same intent still matches its
    // actual device.
    assert!(name_matches("(?i)ir camera.*", "IR Camera 720p"));
    assert!(name_matches("(?i)ir camera.*", "IR Camera"));
}

#[test]
fn name_matches_word_boundary_within_wildcard_span() {
    // A trailing wildcard after a vendor prefix must not let "ir" match
    // via an unrelated word that merely contains the letters "ir"
    // (e.g. "Air") — the pattern's " ir" requires a literal space
    // immediately before "ir".
    assert!(!name_matches("(?i)hp.* ir.*", "HP Air Camera"));
    assert!(!name_matches("(?i)surface.* ir.*", "Surface Air Camera"));
}

#[test]
fn quirks_db_find_by_name() {
    let mut db = QuirksDb::default();
    db.push_quirk_for_test(Quirk {
        vendor_id: None,
        product_id: None,
        name_pattern: Some("(?i)hp.* ir.*".into()),
        force_ir: Some(true),
        emitter_xu_guid: None,
        emitter_xu_selector: None,
        warmup_frames: Some(8),
        format_preference: None,
        rotation: None,
        notes: Some("HP IR".into()),
    });

    let device = make_device("HP IR Camera 5MP");
    let quirk = db.find_match(&device, &DeviceFingerprint::default());
    assert!(quirk.is_some());
    assert_eq!(quirk.unwrap().force_ir, Some(true));
}

#[test]
fn quirks_db_no_match() {
    let db = QuirksDb::default();
    let device = make_device("Some Random Camera");
    assert!(db.find_match(&device, &DeviceFingerprint::default()).is_none());
}

#[test]
fn quirks_db_usb_id_matching() {
    let mut db = QuirksDb::default();
    db.push_quirk_for_test(Quirk {
        vendor_id: Some("8086".into()),
        product_id: Some("0b07".into()),
        name_pattern: None,
        force_ir: Some(true),
        emitter_xu_guid: None,
        emitter_xu_selector: None,
        warmup_frames: Some(10),
        format_preference: Some("Y16 ".into()),
        rotation: None,
        notes: Some("Intel RealSense".into()),
    });
    // Add a name-pattern quirk that would also match
    db.push_quirk_for_test(Quirk {
        vendor_id: None,
        product_id: None,
        name_pattern: Some("(?i).*realsense.*".into()),
        force_ir: Some(false), // Different value to test priority
        emitter_xu_guid: None,
        emitter_xu_selector: None,
        warmup_frames: None,
        format_preference: None,
        rotation: None,
        notes: None,
    });

    // USB ID matching not testable without sysfs, but we can verify
    // name pattern is the fallback when USB IDs don't match
    let device = make_device("Intel RealSense D435");
    let quirk = db.find_match(&device, &DeviceFingerprint::default());
    assert!(quirk.is_some());
    // Should match by name pattern since we can't read sysfs in tests
    // The force_ir from name match quirk (false) or USB match (true)
    // depends on whether sysfs IDs are readable
}

#[test]
fn quirks_db_case_insensitive_usb_id() {
    // USB IDs should match case-insensitively
    let mut db = QuirksDb::default();
    db.push_quirk_for_test(Quirk {
        vendor_id: Some("046D".into()),  // uppercase D
        product_id: Some("085E".into()), // uppercase E
        name_pattern: None,
        force_ir: Some(true),
        emitter_xu_guid: None,
        emitter_xu_selector: None,
        warmup_frames: None,
        format_preference: None,
        rotation: None,
        notes: Some("Logitech".into()),
    });

    // Can only test name fallback in tests (no sysfs)
    let device = make_device("Some other camera");
    assert!(db.find_match(&device, &DeviceFingerprint::default()).is_none());
}

#[test]
fn quirks_db_multiple_name_patterns() {
    let mut db = QuirksDb::default();
    db.push_quirk_for_test(Quirk {
        vendor_id: None,
        product_id: None,
        name_pattern: Some("(?i)first.*camera".into()),
        force_ir: Some(true),
        emitter_xu_guid: None,
        emitter_xu_selector: None,
        warmup_frames: None,
        format_preference: None,
        rotation: None,
        notes: Some("first pattern".into()),
    });
    db.push_quirk_for_test(Quirk {
        vendor_id: None,
        product_id: None,
        name_pattern: Some("(?i)second.*camera.*".into()),
        force_ir: Some(false),
        emitter_xu_guid: None,
        emitter_xu_selector: None,
        warmup_frames: None,
        format_preference: None,
        rotation: None,
        notes: Some("second pattern".into()),
    });

    // "first.*camera" (no trailing wildcard) anchors to the end too —
    // still matches because the device name happens to end in "Camera".
    let dev1 = make_device("First IR Camera");
    let q1 = db.find_match(&dev1, &DeviceFingerprint::default());
    assert!(q1.is_some());
    assert_eq!(q1.unwrap().force_ir, Some(true));

    let dev2 = make_device("Second Camera Module");
    let q2 = db.find_match(&dev2, &DeviceFingerprint::default());
    assert!(q2.is_some());
    assert_eq!(q2.unwrap().force_ir, Some(false));

    let dev3 = make_device("Third Webcam");
    assert!(db.find_match(&dev3, &DeviceFingerprint::default()).is_none());
}

#[test]
fn a_later_quirk_overrides_an_earlier_one() {
    let quirk = |vendor: Option<&str>, pattern: Option<&str>, notes: &str| Quirk {
        vendor_id: vendor.map(|v| v.to_string()),
        product_id: vendor.map(|_| "085e".to_string()),
        name_pattern: pattern.map(|p| p.to_string()),
        force_ir: None,
        emitter_xu_guid: None,
        emitter_xu_selector: None,
        warmup_frames: None,
        format_preference: None,
        rotation: None,
        notes: Some(notes.to_string()),
    };
    let db = QuirksDb::load(
        vec![Some(vec![
            quirk(Some("046d"), None, "system"),
            quirk(None, Some("(?i).*brio.*"), "system name"),
        ])],
        vec![
            Some(vec![quirk(Some("046D"), None, "user")]),
            None,
            Some(vec![quirk(None, Some("(?i).*brio"), "user name")]),
        ],
    );
    let ids = ("046d".to_string(), "085e".to_string());
    let device = make_device("Logitech BRIO");
    let (found, kind) = db.find_match_with_kind(&device, Some(&ids)).unwrap();
    assert_eq!(found.notes.as_deref(), Some("user"));
    assert_eq!(kind, QuirkMatchKind::UsbId);
    let (found, kind) = db.find_match_with_kind(&device, None).unwrap();
    assert_eq!(found.notes.as_deref(), Some("user name"));
    assert_eq!(kind, QuirkMatchKind::NameOnly);
    // What the user's files say nothing of stays the system's word.
    let (found, _) = db.find_match_with_kind(&make_device("BRIO 4K"), None).unwrap();
    assert_eq!(found.notes.as_deref(), Some("system name"));
    // The order of loading is kept.
    let notes: Vec<_> = db.all().iter().map(|q| q.notes.as_deref().unwrap()).collect();
    assert_eq!(notes, ["system", "system name", "user", "user name"]);
}

#[test]
fn name_matches_multiple_wildcards_anchored() {
    // Anchored: the final part must now match at the very end of the name.
    assert!(name_matches("(?i)a.*b.*c", "Alpha Beta Attic"));
    assert!(!name_matches("(?i)a.*b.*c", "Alpha Delta"));
    assert!(!name_matches("(?i)a.*b.*c", "Alpha Beta Camera"));
    assert!(name_matches("(?i)a.*b.*c.*", "Alpha Beta Camera"));
}

#[test]
fn name_matches_empty_pattern() {
    // Empty pattern should match anything (all parts empty after split)
    assert!(name_matches("", "Any Camera"));
    assert!(name_matches(".*", "Any Camera"));
}

fn unread() -> SysfsAttribute {
    SysfsAttribute { at_device: None, at_parent: None }
}

#[test]
fn device_fingerprint_tolerates_missing_sysfs() {
    let fp = device_fingerprint(
        "/dev/nonexistent_test_video",
        &unread(),
        &unread(),
        &unread(),
        None,
    );
    assert!(fp.vid.is_none() && fp.pid.is_none() && fp.serial.is_none() && fp.by_path.is_none());
    assert!(read_usb_ids(&fp).is_none());
}

#[test]
fn device_fingerprint_rejects_non_dev_path() {
    let vendor = SysfsAttribute { at_device: Some("046d\n".into()), at_parent: None };
    let fp = device_fingerprint("relative/path", &vendor, &vendor, &vendor, Some("x".into()));
    assert!(fp.vid.is_none() && fp.pid.is_none() && fp.serial.is_none() && fp.by_path.is_none());
}

#[test]
fn quirks_load_dir_nonexistent() {
    let mut db = QuirksDb::default();
    db.load_dir(Vec::new());
    assert!(db.all().is_empty(), "nothing to load should load zero quirks");
}

fn quirk(vendor: Option<&str>, product: Option<&str>, pattern: Option<&str>, note: &str) -> Quirk {
    Quirk {
        vendor_id: vendor.map(Into::into),
        product_id: product.map(Into::into),
        name_pattern: pattern.map(Into::into),
        force_ir: Some(true),
        emitter_xu_guid: None,
        emitter_xu_selector: None,
        warmup_frames: None,
        format_preference: None,
        rotation: None,
        notes: Some(note.into()),
    }
}

#[test]
fn an_identity_match_beats_a_name_match_wherever_it_stands() {
    let mut db = QuirksDb::default();
    db.push_quirk_for_test(quirk(None, None, Some("(?i)logitech.*"), "by name"));
    db.push_quirk_for_test(quirk(Some("046D"), Some("085E"), None, "by identity"));
    let device = make_device("Logitech BRIO");
    let ids = ("046d".to_string(), "085e".to_string());
    let found = db.find_match_with_ids(&device, Some(&ids)).unwrap();
    assert_eq!(found.notes.as_deref(), Some("by identity"));
    let (_, kind) = db.find_match_with_kind(&device, Some(&ids)).unwrap();
    assert_eq!(kind, QuirkMatchKind::UsbId);
    // Without a readable identity only the name is left.
    let (found, kind) = db.find_match_with_kind(&device, None).unwrap();
    assert_eq!(found.notes.as_deref(), Some("by name"));
    assert_eq!(kind, QuirkMatchKind::NameOnly);
}

#[test]
fn an_identity_is_read_off_the_fingerprint() {
    let vendor = SysfsAttribute { at_device: None, at_parent: Some("046D\n".into()) };
    let product = SysfsAttribute { at_device: Some(" 085E ".into()), at_parent: None };
    let serial = SysfsAttribute { at_device: Some("  ".into()), at_parent: Some("AbC".into()) };
    let fp = device_fingerprint("/dev/video0", &vendor, &product, &serial, None);
    assert_eq!(fp.vid.as_deref(), Some("046d"));
    assert_eq!(fp.pid.as_deref(), Some("085e"));
    assert_eq!(fp.serial.as_deref(), Some("AbC"));
    assert_eq!(read_usb_ids(&fp), Some(("046d".to_string(), "085e".to_string())));

    let mut db = QuirksDb::default();
    db.push_quirk_for_test(quirk(Some("046d"), Some("085e"), None, "by identity"));
    assert!(db.find_match(&make_device("Anything"), &fp).is_some());
}

#[test]
fn attributes_are_trimmed_and_empty_ones_are_absent() {
    assert_eq!(try_read_sysfs_attr(&Some(" 8086\n".into())), Some("8086".to_string()));
    assert_eq!(try_read_sysfs_attr(&Some(" \n".into())), None);
    assert_eq!(try_read_sysfs_attr(&None), None);
}

#[test]
fn attributes_are_looked_for_at_the_device_and_a_level_up() {
    let (own, parent) = sysfs_attr_paths("/dev/video3", "idVendor").unwrap();
    assert_eq!(own, "/sys/class/video4linux/video3/device/idVendor");
    assert_eq!(parent, "/sys/class/video4linux/video3/device/../idVendor");
    assert!(sysfs_attr_paths("relative/path", "idVendor").is_none());
}

#[test]
fn the_first_link_that_resolves_to_the_device_names_it() {
    let links = vec![
        ByPathLink { file_name: "a".into(), resolved: Some("/dev/video1".into()) },
        ByPathLink { file_name: "b".into(), resolved: None },
        ByPathLink { file_name: "c".into(), resolved: Some("/dev/video0".into()) },
        ByPathLink { file_name: "d".into(), resolved: Some("/dev/video0".into()) },
    ];
    assert_eq!(by_path_name("/dev/video0", &links), Some("c".to_string()));
    assert_eq!(by_path_name("/dev/video7", &links), None);
}

#[test]
fn quirk_files_are_read_in_order_and_unreadable_ones_skipped() {
    let names = vec![
        "20-b.toml".to_string(),
        "readme.md".to_string(),
        "10-a.toml".to_string(),
        ".toml".to_string(),
    ];
    assert_eq!(quirks_file_names(&names), vec!["10-a.toml", "20-b.toml"]);

    let db = QuirksDb::load(
        vec![Some(vec![quirk(None, None, Some("a"), "1")]), None],
        vec![Some(vec![quirk(None, None, Some("b"), "2")])],
    );
    let notes: Vec<&str> = db.all().iter().filter_map(|q| q.notes.as_deref()).collect();
    assert_eq!(notes, vec!["1", "2"]);
}

#[test]
fn wildcards_stand_for_anything() {
    assert!(wildcard_match("a.*b", "ab"));
    assert!(wildcard_match("a.*b", "a--b--b"));
    assert!(!wildcard_match("a.*b", "a--b--"));
    // The same letter cannot serve twice.
    assert!(!wildcard_match("ab.*b", "ab"));
}
