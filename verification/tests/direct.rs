//! Direct mode, the recognition test, the attempt and the daemon's start.

use facelock::auth::{
    camera_detected, camera_opened, camera_resolved, caps_of, compared, config_loaded,
    embeddings_loaded, models_loaded, pre_checked, store_opened, warmup_frames, AttemptFacts,
    AuditEntry, AuditSource, AuthOutcome, AuthStep, CameraCaps,
};
use facelock::daemon::{self, provider_notice, provider_probed, Notice};
use facelock::direct::pre_checked as test_pre_checked;
use facelock::device::{DeviceInfo, FormatInfo};
use facelock::direct::{
    authenticate, authenticated, build_resolved_camera_device, enroll, enroll_answered,
    init_software_sealer, load_begin, load_next, load_user_embeddings, plan_row, reads_plain_rows,
    resolve_failed, row_failure, unseal_key_failure, EncryptionMethod, EnrollProgress, EnrollWork,
    LoadProgress, LoadWork, LoadWorked, Row, RowPlan, SealerPlan, TestProgress, TestWork, Work,
    Worked,
};
use facelock::ipc_client::{AuthFailureReason, DaemonResponse, FaceModelInfo, MatchResult};
use facelock::is_enrolled::{Marker, MarkerState};
use facelock::quirks::{DeviceFingerprint, Quirk, QuirksDb};
use facelock::status::EpStatus;
use facelock::test_cmd::{
    daemon_has_matching, daemon_report, daemon_user_has_models, direct_report,
    direct_user_has_models, models_probed, offer_answered, setup_finished, test_step,
    unreadable_store_error, Figures, ModelStep, NotifyEvent, StoreAnswer, TestStep,
};

fn make_device(path: &str, name: &str, fourcc: &str) -> DeviceInfo {
    DeviceInfo {
        path: path.to_string(),
        name: name.to_string(),
        driver: "uvcvideo".to_string(),
        capabilities: vec!["VIDEO_CAPTURE".to_string()],
        formats: vec![FormatInfo {
            fourcc: fourcc.to_string(),
            description: "Test".to_string(),
            sizes: vec![(640, 480)],
        }],
    }
}

#[test]
fn a_detected_device_inherits_its_quirk() {
    let device = make_device("/dev/video2", "BRIO IR", "GREY");
    let mut quirks = QuirksDb::default();
    quirks.push_quirk_for_test(Quirk {
        vendor_id: None,
        product_id: None,
        name_pattern: Some("(?i)brio.*ir".to_string()),
        force_ir: Some(true),
        emitter_xu_guid: None,
        emitter_xu_selector: None,
        warmup_frames: Some(9),
        format_preference: None,
        rotation: None,
        notes: None,
    });
    let resolved = build_resolved_camera_device(
        2,
        &device,
        DeviceFingerprint::default(),
        &quirks,
        &[],
        &[],
    );
    assert_eq!(resolved.device.path.as_deref(), Some("/dev/video2"));
    assert!(resolved.device_is_ir);
    assert_eq!(resolved.device_quirk.and_then(|q| q.warmup_frames), Some(9));
    assert_eq!(resolved.warmup(), 9);
}

#[test]
fn unmatched_device_keeps_default_warmup_and_non_ir_state() {
    let device = make_device("/dev/video3", "USB Camera", "MJPG");
    let quirks = QuirksDb::default();
    let resolved = build_resolved_camera_device(
        2,
        &device,
        DeviceFingerprint::default(),
        &quirks,
        &[],
        &[],
    );
    assert_eq!(resolved.device.path.as_deref(), Some("/dev/video3"));
    assert_eq!(resolved.device.warmup_frames, 2);
    assert!(!resolved.device_is_ir);
    assert!(resolved.device_quirk.is_none());
    assert_eq!(resolved.warmup(), 2);
}

#[test]
fn an_unresolved_camera_says_which() {
    assert_eq!(
        resolve_failed(&Some("/dev/video9".to_string()), "gone".to_string()),
        vec!["failed to query configured camera /dev/video9", "gone"]
    );
    assert_eq!(
        resolve_failed(&None, "none".to_string()),
        vec!["no camera device specified and auto-detection failed", "none"]
    );
    assert_eq!(Work::OpenStore.failure(), "failed to open database");
    assert_eq!(Work::ListModels.failure(), "storage error listing face models");
}

fn row(id: u32, length: usize, sealed: bool, software_encrypted: bool) -> Row {
    Row { id, length, sealed, software_encrypted }
}

#[test]
fn sealed_rows_take_their_own_way() {
    assert_eq!(plan_row(&row(1, 9, true, true), true), Ok(RowPlan::Decrypt));
    assert_eq!(
        plan_row(&row(1, 9, true, true), false),
        Err("embedding 1 is software-encrypted but no key is configured".to_string())
    );
    // Even one of the right length is not read raw.
    assert_eq!(plan_row(&row(1, 2048, true, false), true), Ok(RowPlan::Unseal));
    assert_eq!(plan_row(&row(1, 2048, false, false), false), Ok(RowPlan::Raw));
    assert_eq!(
        plan_row(&row(7, 12, false, false), false),
        Err("invalid raw embedding size for id 7: expected 2048 bytes, got 12".to_string())
    );
    assert_eq!(
        row_failure(4, RowPlan::Decrypt),
        Some("software decryption failed for embedding 4".to_string())
    );
    assert_eq!(
        row_failure(4, RowPlan::Unseal),
        Some("TPM unseal failed for embedding 4".to_string())
    );
    assert_eq!(row_failure(4, RowPlan::Raw), None);
}

#[test]
fn rows_are_planned_up_to_the_first_that_cannot_be() {
    let good = vec![row(1, 2048, false, false), row(2, 1, true, true), row(3, 1, true, false)];
    assert_eq!(
        load_user_embeddings(&good, true),
        (vec![RowPlan::Raw, RowPlan::Decrypt, RowPlan::Unseal], None)
    );
    let (plans, refusal) = load_user_embeddings(&good, false);
    assert_eq!(plans, vec![RowPlan::Raw]);
    assert!(refusal.unwrap().contains("embedding 2"));
    assert_eq!(load_user_embeddings(&vec![], false), (vec![], None));
}

#[test]
fn sealing_the_database_forces_the_slow_path() {
    assert!(reads_plain_rows(false, false));
    assert!(!reads_plain_rows(false, true));
    assert!(!reads_plain_rows(true, false));
}

#[test]
fn the_key_is_made_on_first_use() {
    assert_eq!(
        init_software_sealer(EncryptionMethod::Keyfile, false, false),
        SealerPlan::GenerateThenLoad
    );
    assert_eq!(
        init_software_sealer(EncryptionMethod::Keyfile, true, false),
        SealerPlan::Load
    );
    assert_eq!(
        init_software_sealer(EncryptionMethod::Tpm, false, true),
        SealerPlan::UnsealKey
    );
    assert_eq!(
        init_software_sealer(EncryptionMethod::Tpm, false, false),
        SealerPlan::NoTpmSupport
    );
    assert_eq!(
        init_software_sealer(EncryptionMethod::Plaintext, true, true),
        SealerPlan::NoSealer
    );
    assert_eq!(unseal_key_failure("/k"), "failed to unseal AES key from /k");
}

fn no_match() -> MatchResult {
    MatchResult { matched: false, model_id: None, label: None, failure_reason: None }
}

fn a_match() -> MatchResult {
    MatchResult { matched: true, model_id: Some(3), label: Some("front".to_string()), failure_reason: None }
}

#[test]
fn answers_become_verdicts() {
    assert_eq!(test_pre_checked(DaemonResponse::Suppressed), Ok(no_match()));
    assert_eq!(
        test_pre_checked(DaemonResponse::Error { message: "limited".to_string() }),
        Err("limited".to_string())
    );
    assert_eq!(
        test_pre_checked(DaemonResponse::Done),
        Err("unexpected pre-check response".to_string())
    );
    assert_eq!(authenticated(DaemonResponse::AuthResult(a_match())), Ok(a_match()));
    assert_eq!(
        authenticated(DaemonResponse::Suppressed),
        Err("unexpected auth response".to_string())
    );
    assert_eq!(
        enroll_answered(DaemonResponse::Enrolled { model_id: 2, embedding_count: 7 }),
        Ok((2, 7))
    );
    assert_eq!(
        enroll_answered(DaemonResponse::Removed),
        Err("unexpected enroll response".to_string())
    );
}

fn order() -> Vec<TestWork> {
    let mut works = vec![TestWork::OpenStore];
    while let TestProgress::Work(next) = authenticate(*works.last().unwrap(), Worked::Done) {
        works.push(next);
    }
    works
}

#[test]
fn a_test_asks_the_rules_before_it_opens_the_camera() {
    assert_eq!(
        order(),
        [
            TestWork::OpenStore,
            TestWork::ClassifyCamera,
            TestWork::PreCheck,
            TestWork::ResolveCamera,
            TestWork::OpenCamera,
            TestWork::LoadEngine,
            TestWork::LoadEmbeddings,
            TestWork::ListModels,
            TestWork::Compare,
        ]
    );
    assert_eq!(TestWork::Compare.audit_source(), Some(AuditSource::Test));
    assert_eq!(TestWork::OpenCamera.audit_source(), None);
    match authenticate(TestWork::PreCheck, Worked::Answered(DaemonResponse::Suppressed)) {
        TestProgress::Verdict(verdict) => assert_eq!(verdict, no_match()),
        other => panic!("{other:?}"),
    }
    match authenticate(TestWork::Compare, Worked::Answered(DaemonResponse::Suppressed)) {
        TestProgress::Fail(chain) => assert_eq!(chain, vec!["unexpected auth response"]),
        other => panic!("{other:?}"),
    }
    match authenticate(TestWork::Compare, Worked::Answered(DaemonResponse::AuthResult(a_match())))
    {
        TestProgress::Verdict(verdict) => assert_eq!(verdict, a_match()),
        other => panic!("{other:?}"),
    }
    let broken = || Worked::Failed(vec!["gone".to_string()]);
    for (work, expected) in [
        (TestWork::OpenStore, vec!["failed to open database", "gone"]),
        (TestWork::ClassifyCamera, vec!["failed to resolve camera device", "gone"]),
        (TestWork::OpenCamera, vec!["failed to open camera", "gone"]),
        (TestWork::LoadEngine, vec!["failed to load face engine", "gone"]),
        (TestWork::ListModels, vec!["storage error listing face models", "gone"]),
        (TestWork::LoadEmbeddings, vec!["gone"]),
    ] {
        match authenticate(work, broken()) {
            TestProgress::Fail(chain) => assert_eq!(chain, expected),
            other => panic!("{other:?}"),
        }
    }
}

#[test]
fn an_enrollment_is_refused_before_anything_is_opened() {
    let mut works = vec![EnrollWork::CheckAllowed];
    while let EnrollProgress::Work(next) = enroll(*works.last().unwrap(), Worked::Done) {
        works.push(next);
    }
    assert_eq!(
        works,
        [
            EnrollWork::CheckAllowed,
            EnrollWork::OpenStore,
            EnrollWork::ResolveCamera,
            EnrollWork::OpenCamera,
            EnrollWork::LoadEngine,
            EnrollWork::InitSealer,
            EnrollWork::Enroll,
        ]
    );
    let stored = DaemonResponse::Enrolled { model_id: 4, embedding_count: 9 };
    assert!(matches!(
        enroll(EnrollWork::Enroll, Worked::Answered(stored)),
        EnrollProgress::Enrolled(4, 9)
    ));
    match enroll(EnrollWork::OpenStore, Worked::Failed(vec!["locked".to_string()])) {
        EnrollProgress::Fail(chain) => {
            assert_eq!(chain, vec!["failed to open database", "locked"])
        }
        other => panic!("{other:?}"),
    }
}

// -- the recognition test -------------------------------------------------

#[test]
fn absent_store_and_zero_models_read_as_not_enrolled() {
    let marker = MarkerState::Absent;
    assert_eq!(direct_user_has_models(&StoreAnswer::Absent, &marker, "/db"), Ok(false));
    assert_eq!(direct_user_has_models(&StoreAnswer::Has(false), &marker, "/db"), Ok(false));
    assert_eq!(direct_user_has_models(&StoreAnswer::Has(true), &marker, "/db"), Ok(true));
}

#[test]
fn an_unreadable_store_is_an_error_and_the_marker_words_it() {
    let broken = StoreAnswer::Unopened { cause: "not a database".to_string() };
    let plain = direct_user_has_models(&broken, &MarkerState::Absent, "/db").unwrap_err();
    assert_eq!(plain, "the face database at /db can't be read (not a database)");

    let marker = MarkerState::Enrolled(Marker { models: 3, updated: String::new() });
    let worded = direct_user_has_models(&broken, &marker, "/db").unwrap_err();
    assert_eq!(
        worded,
        "You appear to have 3 enrolled model(s), but the face database at /db can't be read right now (not a database)."
    );

    let failed = StoreAnswer::Failed { error: "locked".to_string() };
    assert!(direct_user_has_models(&failed, &MarkerState::Absent, "/db")
        .unwrap_err()
        .contains("storage error: locked"));
    assert!(unreadable_store_error(&MarkerState::Absent, "/db", "c").contains("can't be read"));
}

#[test]
fn the_daemon_lists_or_it_is_an_error() {
    let model = FaceModelInfo {
        id: 1,
        user: "a".to_string(),
        label: "l".to_string(),
        created_at: 0,
        embedder_model: "e1".to_string(),
        device_id: None,
    };
    let listed = DaemonResponse::Models(vec![model]);
    assert_eq!(daemon_user_has_models(&listed, ""), Ok(true));
    assert_eq!(daemon_user_has_models(&DaemonResponse::Models(vec![]), ""), Ok(false));
    assert_eq!(daemon_has_matching(&listed, "e1", ""), Ok(true));
    assert_eq!(daemon_has_matching(&listed, "e2", ""), Ok(false));
    assert_eq!(
        daemon_user_has_models(&DaemonResponse::Error { message: "down".to_string() }, ""),
        Err("daemon error: down".to_string())
    );
    assert_eq!(
        daemon_has_matching(&DaemonResponse::Removed, "e", "Removed"),
        Err("unexpected response from daemon: Removed".to_string())
    );
}

#[test]
fn the_test_starts_only_for_someone_it_can_recognize() {
    match test_step("alice", "e", false, false) {
        TestStep::Stop(lines) => assert_eq!(
            lines,
            vec![
                "No face models enrolled for user 'alice'.",
                "Run 'facelock enroll' to enroll a face first."
            ]
        ),
        other => panic!("{other:?}"),
    }
    match test_step("alice", "e", true, false) {
        TestStep::Stop(lines) => assert_eq!(
            lines[0],
            "Warning: no enrolled models use the configured embedder 'e'."
        ),
        other => panic!("{other:?}"),
    }
    match test_step("alice", "e", true, true) {
        TestStep::Start(lines) => {
            assert_eq!(lines[0], "Testing face recognition for user 'alice'...")
        }
        other => panic!("{other:?}"),
    }
    assert_eq!(models_probed(true, false), ModelStep::Offer);
    assert_eq!(models_probed(true, true), ModelStep::Proceed);
    assert_eq!(offer_answered(true), ModelStep::Setup);
    assert_eq!(
        offer_answered(false).error(),
        Some("Models required. Run `facelock setup` to download them.")
    );
    assert_eq!(
        setup_finished(false, true).error(),
        Some("Models still not found after setup.")
    );
    assert_eq!(setup_finished(true, true), ModelStep::Proceed);
}

fn figures() -> Figures {
    Figures {
        similarity: "0.61".to_string(),
        seconds: "1.25".to_string(),
        about_seconds: "1.2".to_string(),
    }
}

#[test]
fn the_test_reports_what_it_saw() {
    let end = direct_report(Ok(a_match()), &figures());
    assert_eq!(end.line, Ok("Matched (similarity: 0.61) in 1.25s".to_string()));
    assert!(matches!(end.event, NotifyEvent::Success { label: Some(_) }));

    let end = direct_report(Ok(no_match()), &figures());
    assert_eq!(end.line, Ok("No match (best: 0.61) after 1.2s".to_string()));

    let blocked = MatchResult {
        failure_reason: Some(AuthFailureReason::VarianceNotSatisfied),
        ..no_match()
    };
    let end = direct_report(Ok(blocked), &figures());
    assert!(end.line.unwrap().contains("liveness variance check was not satisfied after 1.2s"));

    // The error has the whole chain, the notification its outermost sentence.
    let chain = vec!["no camera".to_string(), "busy".to_string(), "EBUSY".to_string()];
    let end = direct_report(Err(chain), &figures());
    assert_eq!(end.line, Err("no camera: busy: EBUSY".to_string()));
    match end.event {
        NotifyEvent::Failure { reason } => assert_eq!(reason, "no camera"),
        other => panic!("{other:?}"),
    }

    let end =
        daemon_report(DaemonResponse::AuthResult(a_match()), true, true, "", &figures());
    assert_eq!(
        end.line,
        Ok("Matched model #3 'front' (similarity: 0.61) in 1.25s".to_string())
    );
    let bare = MatchResult { matched: true, model_id: None, label: None, failure_reason: None };
    let end = daemon_report(DaemonResponse::AuthResult(bare), true, true, "", &figures());
    assert!(end.line.unwrap().starts_with("Matched model #0 'unknown'"));

    for (require, above, blocked) in
        [(true, true, true), (true, false, false), (false, true, false)]
    {
        let end = daemon_report(
            DaemonResponse::AuthResult(no_match()),
            require,
            above,
            "",
            &figures(),
        );
        assert_eq!(end.line.unwrap().starts_with("Face matched"), blocked);
    }
    let end = daemon_report(DaemonResponse::Suppressed, true, true, "Suppressed", &figures());
    assert_eq!(end.line, Err("unexpected response from daemon: Suppressed".to_string()));
}

// -- the attempt ----------------------------------------------------------

fn code(step: &AuthStep) -> Option<i32> {
    match step {
        AuthStep::Exit(exit) => Some(exit.code),
        _ => None,
    }
}

#[test]
fn an_attempt_goes_step_by_step() {
    match config_loaded(Err("bad toml".to_string())) {
        AuthStep::Exit(exit) => {
            assert_eq!(exit.code, 2);
            assert_eq!(
                exit.complaint.as_deref(),
                Some("facelock auth: config error: bad toml")
            );
        }
        other => panic!("{other:?}"),
    }
    assert!(matches!(config_loaded(Ok(None)), AuthStep::Detect));
    assert!(matches!(
        config_loaded(Ok(Some("/dev/video0".to_string()))),
        AuthStep::Resolve { .. }
    ));
    assert_eq!(code(&camera_detected(Err("none".to_string()))), Some(2));
    assert!(matches!(camera_detected(Ok("/d".to_string())), AuthStep::Resolve { .. }));
    assert!(matches!(camera_resolved(), AuthStep::OpenStore));
    assert!(matches!(store_opened(true), AuthStep::PreCheck));
    assert_eq!(code(&store_opened(false)), Some(2));
    assert_eq!(code(&pre_checked(true, None, 5)), Some(2));
    assert!(matches!(
        pre_checked(false, Some(9), 5),
        AuthStep::OpenCamera { warmup_frames: 9 }
    ));
    assert_eq!(warmup_frames(None, 5), 5);
    assert!(matches!(camera_opened(true), AuthStep::LoadModels));
    assert_eq!(code(&camera_opened(false)), Some(2));
    assert!(matches!(models_loaded(true), AuthStep::LoadEmbeddings));
    assert_eq!(code(&models_loaded(false)), Some(2));
    assert!(matches!(embeddings_loaded(true), AuthStep::Compare));
    // Templates that cannot be read match nobody.
    assert_eq!(code(&embeddings_loaded(false)), Some(1));
}

fn facts() -> AttemptFacts {
    AttemptFacts {
        user: "alice".to_string(),
        device: Some("/dev/video0".to_string()),
        duration_ms: 42,
    }
}

#[test]
fn only_a_failed_match_is_charged() {
    let matched = compared(AuthOutcome::AuthResult { matched: true }, facts());
    assert_eq!((matched.code, matched.record_failure), (0, false));
    let unmatched = compared(AuthOutcome::AuthResult { matched: false }, facts());
    assert_eq!((unmatched.code, unmatched.record_failure), (1, true));
    assert_eq!(unmatched.audit, None);
    let dark = compared(
        AuthOutcome::Error { message: "camera: all frames dark!".to_string() },
        facts(),
    );
    assert_eq!((dark.code, dark.record_failure, dark.audit), (1, false, None));
    assert_eq!(compared(AuthOutcome::Suppressed, facts()).code, 2);
}

#[test]
fn an_error_is_audited() {
    let broken = compared(AuthOutcome::Error { message: "storage".to_string() }, facts());
    assert_eq!((broken.code, broken.record_failure), (2, false));
    assert_eq!(
        broken.audit,
        Some(AuditEntry {
            user: "alice".to_string(),
            result: "error".to_string(),
            source: AuditSource::Oneshot,
            duration_ms: Some(42),
            device: Some("/dev/video0".to_string()),
            error: Some("storage".to_string()),
        })
    );
}

#[test]
fn a_camera_that_cannot_be_queried_is_not_infrared() {
    let shown = CameraCaps { is_ir: true, fingerprint: DeviceFingerprint::default() };
    assert!(caps_of(Some(shown), DeviceFingerprint::default()).is_ir);
    assert!(!caps_of(None, DeviceFingerprint::default()).is_ir);
}

// -- the daemon's start ---------------------------------------------------

#[test]
fn the_daemon_starts_in_order_or_says_why_not() {
    let some = |s: &str| Some(s.to_string());
    assert!(matches!(daemon::config_loaded(None), Ok(daemon::BuildStep::EnsureLayout)));
    assert_eq!(
        daemon::config_loaded(some("x")).unwrap_err(),
        "failed to load config: x"
    );
    assert!(matches!(daemon::layout_ensured(None, None), Ok(daemon::BuildStep::Detect)));
    assert!(matches!(
        daemon::layout_ensured(some("/dev/video0"), None),
        Ok(daemon::BuildStep::Query { .. })
    ));
    assert_eq!(daemon::layout_ensured(None, some("chmod")).unwrap_err(), "chmod");
    assert_eq!(
        daemon::camera_detected(Err("x".to_string())).unwrap_err(),
        "no camera device specified and auto-detection failed: x"
    );
    let read = DeviceFingerprint {
        vid: Some("046d".to_string()),
        pid: Some("085e".to_string()),
        serial: None,
        by_path: None,
    };
    let shown = daemon::ShownDevice {
        caps: CameraCaps { is_ir: true, fingerprint: DeviceFingerprint::default() },
        quirk_warmup: Some(7),
    };
    let (next, device) = daemon::device_queried(Some(shown), read.clone());
    assert!(matches!(next, daemon::BuildStep::ProbeModels));
    assert!(device.caps.is_ir && device.caps.fingerprint.vid.is_none());
    assert_eq!(device.warmup_override, Some(7));
    let (next, device) = daemon::device_queried(None, read);
    assert!(matches!(next, daemon::BuildStep::ProbeModels));
    assert!(!device.caps.is_ir);
    assert_eq!(device.caps.fingerprint.vid.as_deref(), Some("046d"));
    assert_eq!(device.warmup_override, None);
    assert!(matches!(
        daemon::models_probed(&vec![]),
        Ok(daemon::BuildStep::ProbeProvider)
    ));
    assert_eq!(
        daemon::models_probed(&vec!["/a".to_string(), "/b".to_string()]).unwrap_err(),
        "model files missing: /a, /b — run 'sudo facelock setup' to download them"
    );
    assert!(matches!(daemon::engine_loaded(None), Ok(daemon::BuildStep::OpenStore)));
    assert_eq!(
        daemon::engine_loaded(some("x")).unwrap_err(),
        "failed to load face engine: x"
    );
    assert!(matches!(daemon::store_opened(None), Ok(daemon::BuildStep::Serve)));
    assert_eq!(
        daemon::store_opened(some("x")).unwrap_err(),
        "failed to open database: x"
    );
}

#[test]
fn the_provider_is_announced_warned_of_or_left_to_the_engine() {
    assert_eq!(
        provider_notice(&EpStatus::Available),
        Some(Notice::Info("execution provider resolved".to_string()))
    );
    assert_eq!(
        provider_notice(&EpStatus::NotBuiltIn),
        Some(Notice::Warning(
            "configured execution provider is not built into the installed ONNX Runtime; \
             inference will fall back to CPU"
                .to_string()
        ))
    );
    assert_eq!(
        provider_notice(&EpStatus::Unqueryable("no library".to_string())),
        Some(Notice::Warning(
            "could not query ONNX Runtime for provider availability: no library".to_string()
        ))
    );
    assert_eq!(provider_notice(&EpStatus::UnknownName), None);
    for status in [EpStatus::Available, EpStatus::NotBuiltIn, EpStatus::UnknownName] {
        let (next, notice) = provider_probed(&status);
        assert!(matches!(next, daemon::BuildStep::LoadEngine));
        assert_eq!(notice, provider_notice(&status));
    }
}

// -- loading templates ----------------------------------------------------

fn a_row(id: u32, sealed: bool, software_encrypted: bool) -> Row {
    Row { id, length: 2048, sealed, software_encrypted }
}

/// Carries out a load on the rows, failing at the given work.
fn load_on(
    plan: SealerPlan,
    seal_database: bool,
    rows: &[Row],
    fails_at: Option<LoadWork>,
) -> (Vec<LoadWork>, Result<(), Vec<String>>) {
    let (mut loading, mut progress) = load_begin(plan, seal_database, "/sealed".to_string());
    let mut works = Vec::new();
    loop {
        let work = match progress {
            LoadProgress::Work(work) => work,
            LoadProgress::Loaded => return (works, Ok(())),
            LoadProgress::Fail(chain) => return (works, Err(chain)),
        };
        works.push(work);
        let came_to = if fails_at == Some(work) {
            LoadWorked::Failed(vec!["cause".to_string()])
        } else if work == LoadWork::ReadRawEmbeddings {
            LoadWorked::Rows(rows.to_vec())
        } else {
            LoadWorked::Done
        };
        progress = load_next(&mut loading, work, came_to);
    }
}

#[test]
fn the_key_comes_first_then_the_rows_in_order_with_one_connection() {
    let rows = [
        a_row(7, false, false),
        a_row(8, true, false),
        a_row(9, true, true),
        a_row(10, true, false),
    ];
    let (works, end) = load_on(SealerPlan::GenerateThenLoad, false, &rows, None);
    assert_eq!(end, Ok(()));
    assert_eq!(
        works,
        vec![
            LoadWork::GenerateKey,
            LoadWork::LoadKey,
            LoadWork::ReadRawEmbeddings,
            LoadWork::OpenRow { row: 0, plan: RowPlan::Raw },
            LoadWork::ConnectTpm { row: 1 },
            LoadWork::OpenRow { row: 1, plan: RowPlan::Unseal },
            LoadWork::OpenRow { row: 2, plan: RowPlan::Decrypt },
            LoadWork::OpenRow { row: 3, plan: RowPlan::Unseal },
        ]
    );
    let (works, end) = load_on(SealerPlan::NoSealer, false, &rows, None);
    assert_eq!((works, end), (vec![LoadWork::ReadEmbeddings], Ok(())));
}

#[test]
fn a_failure_ends_the_load_under_its_own_sentence() {
    let rows = [a_row(7, true, true), a_row(8, true, false)];
    for (plan, at, sentence) in [
        (
            SealerPlan::GenerateThenLoad,
            LoadWork::GenerateKey,
            "failed to auto-generate encryption key",
        ),
        (SealerPlan::Load, LoadWork::LoadKey, "failed to initialize software encryption sealer"),
        (SealerPlan::UnsealKey, LoadWork::ConnectForKey, "TPM initialization failed"),
        (SealerPlan::UnsealKey, LoadWork::UnsealKey, "failed to unseal AES key from /sealed"),
        (SealerPlan::NoSealer, LoadWork::ReadEmbeddings, "storage error loading embeddings"),
        (SealerPlan::Load, LoadWork::ReadRawEmbeddings, "storage error loading raw embeddings"),
        (SealerPlan::Load, LoadWork::ConnectTpm { row: 1 }, "TPM initialization failed"),
        (
            SealerPlan::Load,
            LoadWork::OpenRow { row: 0, plan: RowPlan::Decrypt },
            "software decryption failed for embedding 7",
        ),
        (
            SealerPlan::Load,
            LoadWork::OpenRow { row: 1, plan: RowPlan::Unseal },
            "TPM unseal failed for embedding 8",
        ),
    ] {
        let (works, end) = load_on(plan, false, &rows, Some(at));
        assert_eq!(works.last(), Some(&at));
        assert_eq!(end, Err(vec![sentence.to_string(), "cause".to_string()]));
    }
    let (works, end) = load_on(SealerPlan::NoTpmSupport, false, &rows, None);
    assert!(works.is_empty() && end.unwrap_err()[0].contains("rebuild with --features tpm"));
    // A row that cannot be opened without a key ends the load where it stands.
    let (works, end) = load_on(SealerPlan::NoSealer, true, &rows, None);
    assert_eq!(works, vec![LoadWork::ReadRawEmbeddings]);
    assert_eq!(
        end,
        Err(vec!["embedding 7 is software-encrypted but no key is configured".to_string()])
    );
}
