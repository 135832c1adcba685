//! The report on the installation, the listing of cameras and the command line.

use facelock::args::{
    ConfirmArg, DryRunArg, JsonArg, PamCli, PamServiceArg, SetupArgs, SetupCli, UserArg,
};
use facelock::device::{DeviceInfo, FormatInfo};
use facelock::devices::{device_listing, devices_json, list_devices_direct, IpcDeviceInfo};
use facelock::direct::EncryptionMethod;
use facelock::pam::plan::{PamAction, PamRequest};
use facelock::quirks::QuirksDb;
use facelock::status::{
    check_camera, check_config, check_daemon, check_encryption, check_enrolled, check_inference,
    check_models, check_notifications, check_pam, check_security, status_report, tpm_device_path,
    CameraPresence, ConfigOutcome, DaemonState, EncryptionFacts, EnrolledModels, EpStatus,
    ExecutionProvider, ModelFile, ModelFiles, ModelRow, NotificationFacts, NotificationMode,
    SecurityFacts, StatusFacts,
};

#[test]
fn the_configuration_is_a_finding() {
    assert_eq!(
        check_config("/c", &ConfigOutcome::Valid { device_path: None }),
        vec!["  Config file: /c", "    [ok] valid", "    - device.path: (auto-detect)"]
    );
    assert_eq!(
        check_config("/c", &ConfigOutcome::NotFound),
        vec!["  Config file: /c", "    [!!] not found"]
    );
    assert_eq!(
        check_config("/c", &ConfigOutcome::Invalid { error: "line 3".to_string() })[1],
        "    [!!] invalid: line 3"
    );
}

#[test]
fn the_daemon_and_the_camera_are_findings() {
    assert_eq!(
        check_daemon(&None),
        vec!["  Daemon:", "    [!!] config not loaded, cannot check daemon"]
    );
    for (state, line) in [
        (DaemonState::Oneshot, "    [ok] oneshot mode (no daemon)"),
        (DaemonState::Responding, "    [ok] responding"),
        (DaemonState::Odd, "    [ok] connected (unexpected response)"),
        (DaemonState::Silent { error: "e".to_string() }, "    [!!] not responding: e"),
    ] {
        let lines = check_daemon(&Some(state));
        assert_eq!(lines[0], "  Daemon: org.facelock.Daemon (D-Bus system bus)");
        assert_eq!(lines[1], line);
    }
    let there = CameraPresence::Configured { path: "/dev/video0".to_string(), present: false };
    assert_eq!(
        check_camera(&Some(there)),
        vec!["  Camera device: /dev/video0", "    [!!] device not found"]
    );
    assert_eq!(check_camera(&Some(CameraPresence::AutoDetect))[1], "    [ok] auto-detect enabled");
    assert_eq!(check_camera(&None)[1], "    [!!] config not available");
}

fn models(dir_present: bool, embedder: bool) -> ModelFiles {
    ModelFiles {
        dir: "/m".to_string(),
        dir_present,
        detector: ModelFile { path: "/m/det.onnx".to_string(), present: true },
        embedder: ModelFile { path: "/m/emb.onnx".to_string(), present: embedder },
    }
}

#[test]
fn missing_models_are_named() {
    assert_eq!(
        check_models(&Some(models(true, false))),
        vec![
            "  Model directory: /m",
            "    - detector (det.onnx): present",
            "    - embedder (emb.onnx): MISSING",
            "    [!!] some models missing (run 'facelock setup')",
        ]
    );
    assert_eq!(
        check_models(&Some(models(true, true)))[3],
        "    [ok] all configured models present"
    );
    assert_eq!(
        check_models(&Some(models(false, true))),
        vec!["  Model directory: /m", "    [!!] directory not found"]
    );
}

#[test]
fn the_provider_has_a_name_for_people() {
    let provider = |name: &str, status: EpStatus| {
        check_inference(&Some(ExecutionProvider { configured: name.to_string(), status }))
    };
    assert_eq!(
        provider("cuda", EpStatus::Available),
        vec![
            "  Execution provider: CUDA (NVIDIA GPU)",
            "    [ok] supported by the installed ONNX Runtime"
        ]
    );
    assert_eq!(provider("odd", EpStatus::UnknownName)[0], "  Execution provider: odd");
    assert_eq!(
        provider("cpu", EpStatus::Unqueryable("no lib".to_string()))[1],
        "    [!!] ONNX Runtime not loadable: no lib"
    );
    assert!(provider("rocm", EpStatus::NotBuiltIn)[1].contains("fall back to CPU"));
    assert!(check_inference(&None).is_empty());
}

fn encryption(method: EncryptionMethod) -> EncryptionFacts {
    EncryptionFacts {
        method,
        key_path: "/k".to_string(),
        key_exists: true,
        sealed_key_path: "/s".to_string(),
        sealed_key_exists: true,
        tcti: "device:/dev/tpmrm0".to_string(),
        tpm_device_exists: true,
        counts: None,
    }
}

#[test]
fn the_key_is_a_finding() {
    let lines = |facts: EncryptionFacts| check_encryption(&Some(facts));
    assert_eq!(
        lines(EncryptionFacts {
            counts: Some((3, 1)),
            ..encryption(EncryptionMethod::Keyfile)
        }),
        vec![
            "  Encryption: AES-256-GCM (keyfile)",
            "    [ok] key file: /k",
            "    - encrypted: 3",
            "    - plaintext: 1",
        ]
    );
    assert_eq!(
        lines(EncryptionFacts {
            key_exists: false,
            counts: Some((0, 0)),
            ..encryption(EncryptionMethod::Keyfile)
        }),
        vec!["  Encryption: AES-256-GCM (keyfile)", "    [!!] key file missing: /k"]
    );
    assert_eq!(lines(encryption(EncryptionMethod::Tpm))[1], "    [ok] sealed key: /s");
    assert_eq!(
        lines(EncryptionFacts {
            tpm_device_exists: false,
            ..encryption(EncryptionMethod::Tpm)
        })[1],
        "    [!!] TPM device missing: /dev/tpmrm0"
    );
    assert_eq!(
        lines(EncryptionFacts {
            sealed_key_exists: false,
            tpm_device_exists: false,
            ..encryption(EncryptionMethod::Tpm)
        })[1],
        "    [!!] sealed key missing: /s"
    );
    assert!(lines(encryption(EncryptionMethod::Plaintext))[1].contains("plaintext"));
    assert_eq!(tpm_device_path("tabrmd:"), "tabrmd:");
}

#[test]
fn enrolled_faces_are_listed() {
    let section = |models: EnrolledModels| check_enrolled(&Some(("alice".to_string(), models)));
    let rows = vec![
        ModelRow { id: 2, label: "front".to_string() },
        ModelRow { id: 5, label: "side".to_string() },
    ];
    assert_eq!(
        section(EnrolledModels::Listed(rows)),
        vec![
            "  Enrolled faces: alice",
            "    [ok] 2 model(s)",
            "    - #2: front",
            "    - #5: side",
        ]
    );
    assert_eq!(
        section(EnrolledModels::Listed(vec![]))[1],
        "    [!!] no faces enrolled (run 'facelock enroll')"
    );
    assert_eq!(
        section(EnrolledModels::Inaccessible)[1],
        "    - database: not accessible (may need root)"
    );
    assert_eq!(
        section(EnrolledModels::Unreadable { error: "e".to_string() })[1],
        "    [!!] error reading models: e"
    );
}

#[test]
fn security_and_notifications_are_listed() {
    let facts = SecurityFacts {
        disabled: false,
        require_ir: true,
        require_frame_variance: false,
        require_landmark_liveness: true,
        min_auth_frames: 3,
    };
    assert_eq!(
        check_security(&Some(facts)),
        vec![
            "  Security:",
            "    - require_ir: yes",
            "    - liveness (frame variance): no",
            "    - liveness (landmark movement): yes",
            "    - min_auth_frames: 3",
        ]
    );
    assert_eq!(
        check_security(&Some(SecurityFacts { disabled: true, ..facts }))[1],
        "    [!!] ALL SECURITY CHECKS DISABLED"
    );
    let facts = NotificationFacts {
        mode: NotificationMode::Both,
        notify_prompt: true,
        notify_on_success: false,
        notify_on_failure: true,
    };
    assert_eq!(
        check_notifications(&Some(facts)),
        vec![
            "  Notifications: terminal + desktop",
            "    - prompt: yes",
            "    - on success: no",
            "    - on failure: yes",
        ]
    );
    let off = NotificationFacts { mode: NotificationMode::Off, ..facts };
    assert_eq!(check_notifications(&Some(off)), vec!["  Notifications: off"]);
}

#[test]
fn the_module_is_looked_for_in_two_places() {
    let sudo = Some("auth sufficient pam_facelock.so\n".to_string());
    assert_eq!(
        check_pam(false, true, &sudo),
        vec![
            "  PAM module: /lib/security/pam_facelock.so",
            "    [ok] installed at /usr/lib/security/pam_facelock.so",
            "    - sudo PAM: configured",
        ]
    );
    assert_eq!(check_pam(false, false, &None)[1], "    [!!] not installed");
    assert_eq!(
        check_pam(true, false, &Some(String::new())),
        vec![
            "  PAM module: /lib/security/pam_facelock.so",
            "    [ok] installed",
            "    - sudo PAM: not configured for facelock",
        ]
    );
}

#[test]
fn a_broken_configuration_does_not_end_the_report() {
    let facts = StatusFacts {
        config_path: "/c".to_string(),
        config: ConfigOutcome::NotFound,
        daemon: None,
        camera: None,
        models: None,
        provider: None,
        encryption: None,
        enrolled: None,
        security: None,
        notifications: None,
        module_there: true,
        module_alt_there: false,
        sudo_file: None,
    };
    assert_eq!(
        status_report(&facts),
        vec![
            "facelock system status\n",
            "  Config file: /c",
            "    [!!] not found",
            "  Daemon:",
            "    [!!] config not loaded, cannot check daemon",
            "  Camera:",
            "    [!!] config not available",
            "  Models:",
            "    [!!] config not available",
            "  PAM module: /lib/security/pam_facelock.so",
            "    [ok] installed",
        ]
    );
}

// -- cameras --------------------------------------------------------------

fn sample_devices() -> Vec<IpcDeviceInfo> {
    vec![
        IpcDeviceInfo {
            path: "/dev/video0".to_string(),
            name: "Logitech BRIO".to_string(),
            driver: "uvcvideo".to_string(),
            is_ir: false,
            formats: vec![FormatInfo {
                fourcc: "YUYV".to_string(),
                description: "YUYV 4:2:2".to_string(),
                sizes: vec![(1920, 1080), (640, 480)],
            }],
        },
        IpcDeviceInfo {
            path: "/dev/video2".to_string(),
            name: "Logitech BRIO IR".to_string(),
            driver: "uvcvideo".to_string(),
            is_ir: true,
            formats: vec![FormatInfo {
                fourcc: "GREY".to_string(),
                description: "8-bit Greyscale".to_string(),
                sizes: vec![(640, 480)],
            }],
        },
    ]
}

#[test]
fn json_output_is_a_parseable_array_with_the_documented_fields() {
    let rendered = devices_json(&sample_devices());
    let parsed: serde_json::Value = serde_json::from_str(&rendered).unwrap();
    let arr = parsed.as_array().expect("top level must be a JSON array");
    assert_eq!(arr.len(), 2);

    assert_eq!(arr[0]["path"], "/dev/video0");
    assert_eq!(arr[0]["is_ir"], false);
    assert_eq!(arr[0]["formats"][0]["fourcc"], "YUYV");
    assert_eq!(arr[0]["formats"][0]["sizes"][0][0], 1920);
    assert_eq!(arr[0]["formats"][0]["sizes"][0][1], 1080);

    assert_eq!(arr[1]["path"], "/dev/video2");
    assert_eq!(arr[1]["is_ir"], true);
    assert_eq!(arr[1]["formats"][0]["fourcc"], "GREY");

    assert_eq!(arr[1]["name"], "Logitech BRIO IR");
    assert_eq!(arr[1]["driver"], "uvcvideo");
    assert_eq!(arr[0]["formats"][0]["description"], "YUYV 4:2:2");
    assert_eq!(arr[0].as_object().unwrap().len(), 5);
}

#[test]
fn json_output_is_an_empty_array_when_no_devices() {
    assert_eq!(devices_json(&[]), "[]");
}

fn camera(sizes: Vec<(u32, u32)>) -> IpcDeviceInfo {
    IpcDeviceInfo {
        path: "/dev/video2".to_string(),
        name: "Logitech BRIO IR".to_string(),
        driver: "uvcvideo".to_string(),
        is_ir: true,
        formats: vec![FormatInfo {
            fourcc: "GREY ".to_string(),
            description: "8-bit Greyscale".to_string(),
            sizes,
        }],
    }
}

#[test]
fn cameras_are_listed_with_their_formats() {
    assert_eq!(
        device_listing(&vec![camera(vec![(640, 480), (320, 240)])], true),
        vec![
            "Available video devices:\n",
            "  /dev/video2 [IR]",
            "    Name:    Logitech BRIO IR",
            "    Driver:  uvcvideo",
            "    Formats:",
            "      GREY (8-bit Greyscale) — 640x480, 320x240",
            "",
        ]
    );
    assert_eq!(device_listing(&vec![camera(vec![])], false).len(), 5);
    assert_eq!(
        device_listing(&vec![camera(vec![])], true)[5],
        "      GREY (8-bit Greyscale) — no sizes reported"
    );
    assert_eq!(
        device_listing(&vec![], true),
        vec![
            "No video devices found.",
            "Check that your camera is connected and the v4l2 module is loaded.",
        ]
    );
}

#[test]
fn cameras_listed_without_the_daemon_are_classified() {
    let device = DeviceInfo {
        path: "/dev/video0".to_string(),
        name: "HP IR Camera".to_string(),
        driver: "uvcvideo".to_string(),
        capabilities: vec![],
        formats: vec![],
    };
    let db = QuirksDb::default();
    let lines = list_devices_direct(&[device], &db, &[None]);
    assert_eq!(lines[1], "  /dev/video0 [IR]");
    assert_eq!(list_devices_direct(&[], &db, &[]), vec!["No video devices found."]);
}

// -- the command line -----------------------------------------------------

fn services() -> PamServiceArg {
    PamServiceArg { service: vec!["sudo".to_string()] }
}

#[test]
fn an_addition_asks_for_what_its_flags_say() {
    let cli = PamCli::Add {
        service: services(),
        confirm: ConfirmArg { yes: true },
        allow_sensitive: true,
        if_present: false,
        dry_run: DryRunArg { dry_run: true },
        json: JsonArg { json: false },
    };
    assert_eq!(
        PamRequest::from(cli),
        PamRequest {
            action: PamAction::Add,
            services: vec!["sudo".to_string()],
            no_confirm: true,
            allow_sensitive: true,
            if_present: false,
            dry_run: true,
            json: false,
        }
    );
}

#[test]
fn a_document_leaves_nobody_to_ask() {
    let request = PamRequest::from(PamCli::Remove {
        service: services(),
        confirm: ConfirmArg { yes: false },
        if_present: true,
        dry_run: DryRunArg { dry_run: false },
        json: JsonArg { json: true },
    });
    assert!(request.no_confirm && request.json && request.if_present);
    assert!(!request.allow_sensitive);
    let request =
        PamRequest::from(PamCli::Status { service: services(), json: JsonArg { json: true } });
    assert_eq!(
        request,
        PamRequest {
            action: PamAction::Status,
            services: vec!["sudo".to_string()],
            json: true,
            ..PamRequest::default()
        }
    );
}

#[test]
fn the_setups_flags_carry_over() {
    let user = UserArg { user: Some("alice".to_string()) };
    let args = SetupArgs::from(SetupCli {
        non_interactive: true,
        yes: false,
        pam: true,
        no_pam: false,
        systemd: false,
        no_systemd: true,
        enroll: false,
        no_enroll: true,
        disable: false,
        service: user.user,
        remove: true,
        if_present: true,
        camera: Some("auto".to_string()),
        models: Some("fast".to_string()),
        execution_provider: None,
        encryption: Some("tpm".to_string()),
    });
    assert!(args.non_interactive && args.pam && args.no_systemd && args.no_enroll);
    assert!(args.remove && args.if_present && !args.yes && !args.disable);
    assert_eq!(args.service.as_deref(), Some("alice"));
    assert_eq!(args.camera.as_deref(), Some("auto"));
    assert_eq!(args.models.as_deref(), Some("fast"));
    assert_eq!(args.encryption.as_deref(), Some("tpm"));
    assert_eq!(args.execution_provider, None);
}
