//! Enrollment and removal.

use facelock::direct::EncryptionMethod;
use facelock::enroll::{
    begin, check_model_count, encryption_checked, enrolled, enrolling, enrollment_label,
    highest_label, models_probed, next_label, setup_answered, setup_finished, stale_note,
    sudo_hint, EnrollStep,
};
use facelock::ipc_client::FaceModelInfo;
use facelock::message::FaceMessage;
use facelock::remove::{answered, clear_begin, cleared, remove_begin, removed, RemoveStep};

fn labelled(labels: &[&str]) -> Vec<FaceModelInfo> {
    labels
        .iter()
        .map(|label| FaceModelInfo {
            id: 1,
            user: "alice".to_string(),
            label: label.to_string(),
            created_at: 0,
            embedder_model: "embedder".to_string(),
            device_id: None,
        })
        .collect()
}

#[test]
fn no_models_leave_nothing_stale_and_labels_start_at_one() {
    // No models: nothing is stale, and the labels start at one.
    assert!(stale_note(false, false, "embedder").is_none());
    assert_eq!(next_label("2026-08-13", &labelled(&[])), "2026-08-13-1");
}

#[test]
fn next_label_counts_existing_labels() {
    let models = labelled(&["2026-08-13-1", "2026-08-13-2"]);
    assert_eq!(next_label("2026-08-13", &models), "2026-08-13-3");
    // A fresh prefix (or user) starts at -1.
    assert_eq!(next_label("2026-08-14", &models), "2026-08-14-1");
    assert_eq!(next_label("2026-08-13", &labelled(&[])), "2026-08-13-1");
}

#[test]
fn the_next_label_is_free_among_odd_ones() {
    let odd = labelled(&[
        "2026-08-13-7",
        "2026-08-13-x",
        "2026-08-13",
        "2026-08-13--9",
        "2026-08-130-8",
        "front",
    ]);
    assert_eq!(highest_label("2026-08-13", &odd), 7);
    let next = next_label("2026-08-13", &odd);
    assert_eq!(next, "2026-08-13-8");
    assert!(odd.iter().all(|m| m.label != next));
}

#[test]
fn a_given_label_is_taken_and_another_is_made_of_the_day() {
    let models = labelled(&[]);
    assert_eq!(
        enrollment_label(Some("front".to_string()), &models),
        Some("front".to_string())
    );
    let made = enrollment_label(None, &models).unwrap();
    assert!(made.ends_with("-1"));
    assert_eq!(made.split('-').count(), 4, "{made}");
    assert!(made.starts_with("20"), "{made}");
}

#[test]
fn the_hint_names_what_would_be_offered() {
    assert_eq!(sudo_hint(false, false), "sudo facelock setup");
    assert_eq!(sudo_hint(true, false), "sudo facelock enroll");
    assert_eq!(sudo_hint(false, true), "sudo facelock enroll");
}

#[test]
fn enrollment_refuses_without_root_before_anything_else() {
    match begin(false, true, false) {
        EnrollStep::Refuse(message) => assert!(message.contains("Root required"), "{message}"),
        other => panic!("{other:?}"),
    }
    assert!(matches!(
        begin(true, false, false),
        EnrollStep::OfferSetup {
            notice: FaceMessage::SetupNotCompleted,
            question: FaceMessage::ConfirmRunSetupNow
        }
    ));
    assert!(matches!(begin(true, true, false), EnrollStep::CheckEncryption));
}

#[test]
fn a_setup_that_completed_enrolled_already() {
    assert!(matches!(setup_answered(true), EnrollStep::RunSetup));
    assert!(matches!(
        setup_answered(false),
        EnrollStep::Finish { note: Some(FaceMessage::RunSetupWhenReady) }
    ));
    assert!(matches!(setup_finished(true), EnrollStep::Finish { note: None }));
    assert!(matches!(
        setup_finished(false),
        EnrollStep::Fail(FaceMessage::SetupDidNotComplete)
    ));
}

#[test]
fn plaintext_is_refused_or_warned_of() {
    let refusal = || Err("plaintext is off".to_string());
    assert!(matches!(
        encryption_checked(EncryptionMethod::Plaintext, true, refusal()),
        EnrollStep::ProbeModels { warning: Some(FaceMessage::PlaintextEnrollWarning) }
    ));
    match encryption_checked(EncryptionMethod::Plaintext, false, refusal()) {
        EnrollStep::Refuse(message) => assert_eq!(message, "plaintext is off"),
        other => panic!("{other:?}"),
    }
    assert!(matches!(
        encryption_checked(EncryptionMethod::Keyfile, false, Ok(())),
        EnrollStep::ProbeModels { warning: None }
    ));
}

#[test]
fn models_have_to_be_there() {
    assert!(matches!(models_probed(true, "/m"), EnrollStep::Enroll));
    match models_probed(false, "/m") {
        EnrollStep::Fail(m) => {
            assert_eq!(m, FaceMessage::ModelsMissing { dir: "/m".to_string() })
        }
        other => panic!("{other:?}"),
    }
}

#[test]
fn what_is_said_around_an_enrollment() {
    assert_eq!(
        stale_note(true, false, "e"),
        Some(FaceMessage::StaleEmbedderNote { embedder: "e".to_string() })
    );
    assert_eq!(stale_note(true, true, "e"), None);
    assert_eq!(
        enrolling("a", "l").0,
        FaceMessage::Enrolling { user: "a".to_string(), label: "l".to_string() }
    );
    assert_eq!(
        enrolled(4, 9, "l"),
        FaceMessage::EnrollComplete { model_id: 4, count: 9, label: "l".to_string() }
    );
    assert_eq!(check_model_count("a", Some(5)), None);
    assert_eq!(
        check_model_count("a", Some(6)),
        Some(FaceMessage::TooManyModels { user: "a".to_string(), count: 6 })
    );
    assert_eq!(check_model_count("a", None), None);
}

#[test]
fn removal_asks_first() {
    match remove_begin("a", 3, false) {
        RemoveStep::Confirm(m) => assert_eq!(
            m,
            FaceMessage::ConfirmRemoveModel { model_id: 3, user: "a".to_string() }
        ),
        other => panic!("{other:?}"),
    }
    assert!(matches!(remove_begin("a", 3, true), RemoveStep::Remove));
    assert!(matches!(answered(true), RemoveStep::Remove));
    assert!(matches!(answered(false), RemoveStep::Leave(FaceMessage::Cancelled)));
    assert!(matches!(
        removed("a", 3, Some(false)),
        FaceMessage::ModelNotFound { model_id: 3, .. }
    ));
    for existed in [Some(true), None] {
        assert!(matches!(
            removed("a", 3, existed),
            FaceMessage::RemovedModel { model_id: 3, .. }
        ));
    }
}

#[test]
fn clearing_nothing_asks_nothing() {
    assert!(matches!(
        clear_begin("a", false, false),
        RemoveStep::Leave(FaceMessage::NoModelsEnrolled { .. })
    ));
    assert!(matches!(
        clear_begin("a", true, false),
        RemoveStep::Confirm(FaceMessage::ConfirmClearAll { .. })
    ));
    assert!(matches!(clear_begin("a", true, true), RemoveStep::Remove));
    assert_eq!(
        cleared("a", Some(2)),
        FaceMessage::ClearedModels { count: 2, user: "a".to_string() }
    );
    assert_eq!(cleared("a", None), FaceMessage::AllModelsRemoved { user: "a".to_string() });
}
