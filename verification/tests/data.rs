//! The purge and its report.

use facelock::data::{
    answered, begin, interrupted, json_document, render_report, sanitize_for_display,
    ExternalRemnant, Lifecycle, PurgeReport, PurgeRequest, PurgeStep, Remnant, RemnantKind, Removed,
};
use facelock::message::PurgeMessage;

fn report_with(
    removed: &[&str],
    remnants: Vec<Remnant>,
    external: Vec<ExternalRemnant>,
) -> PurgeReport {
    PurgeReport {
        removed: removed
            .iter()
            .map(|logical| Removed {
                logical: (*logical).to_string(),
                kind: "file".to_string(),
            })
            .collect(),
        remnants,
        external,
        config_note: None,
    }
}

fn remnant(logical: &str, kind: RemnantKind) -> Remnant {
    Remnant {
        logical: logical.to_string(),
        kind,
        detail: "reason".to_string(),
    }
}

fn document(report: &PurgeReport, lifecycle: Option<&Lifecycle>) -> serde_json::Value {
    serde_json::from_str(&json_document(report, lifecycle)).expect("valid JSON")
}

#[test]
fn interrupted_is_distinct_from_a_safety_refusal() {
    let symlink = report_with(
        &[],
        vec![remnant("/etc/facelock/a", RemnantKind::SymbolicLink)],
        vec![],
    );
    assert!(
        !interrupted(&symlink),
        "a symlink refusal is not an interrupt"
    );

    let cut_short = report_with(
        &[],
        vec![remnant("/var/lib/facelock", RemnantKind::Interrupted)],
        vec![],
    );
    assert!(interrupted(&cut_short));

    // A reason that the report words as an interruption is one.
    let worded = RemnantKind::Other("interrupted".to_string());
    assert!(interrupted(&report_with(&[], vec![remnant("/a", worded)], vec![])));
    let busy = RemnantKind::Other("busy".to_string());
    assert_eq!(busy.word(), "busy");
    assert!(!interrupted(&report_with(&[], vec![remnant("/a", busy)], vec![])));
}

#[test]
fn an_external_remnant_defeats_completeness() {
    let report = report_with(
        &["/var/lib/facelock/facelock.db"],
        vec![],
        vec![ExternalRemnant {
            field: "storage.db_path".to_string(),
            path: "/srv/faces.db".to_string(),
        }],
    );
    assert!(!report.is_complete());

    let document = document(&report, None);
    assert_eq!(document["complete"], serde_json::Value::Bool(false));
    assert_eq!(document["external"][0]["field"], "storage.db_path");
}

#[test]
fn an_unclassifiable_config_defeats_completeness() {
    let mut report = report_with(&["/etc/facelock/config.toml"], vec![], vec![]);
    report.config_note = Some("unparseable".to_string());
    assert!(!report.is_complete());
    assert_eq!(
        document(&report, None)["complete"],
        serde_json::Value::Bool(false)
    );
}

#[test]
fn the_document_never_claims_secure_erasure() {
    let clean = report_with(&["/etc/facelock/config.toml"], vec![], vec![]);
    assert!(clean.is_complete());
    let document = document(&clean, None);
    assert_eq!(document["complete"], serde_json::Value::Bool(true));
    assert_eq!(document["secure_erasure"], serde_json::Value::Bool(false));
}

#[test]
fn a_barred_release_names_the_barrier_in_the_document() {
    let report = report_with(&[], vec![], vec![]);
    let barred =
        Lifecycle::Barred("/run/systemd/system.control/facelock-daemon.service".to_string());
    let barred = document(&report, Some(&barred));
    assert_eq!(barred["activation_barred"], serde_json::Value::Bool(true));
    assert_eq!(
        barred["activation_barrier_path"],
        "/run/systemd/system.control/facelock-daemon.service"
    );

    let restored = document(&report, Some(&Lifecycle::Restored));
    assert_eq!(restored["activation_barred"], serde_json::Value::Bool(false));
    assert!(restored["activation_barrier_path"].is_null());
}

#[test]
fn remnant_names_are_sanitized_for_the_human_report() {
    assert_eq!(
        sanitize_for_display("/etc/facelock/\x1b[31mevil"),
        "/etc/facelock/\\x1b[31mevil"
    );
}

#[test]
fn every_control_character_is_spelled_out() {
    assert_eq!(sanitize_for_display("a\n\t\u{7f}\u{85}b"), "a\\x0a\\x09\\x7f\\x85b");
    assert_eq!(sanitize_for_display("ä ü"), "ä ü");
}

#[test]
fn the_document_is_the_contract() {
    let report = report_with(&["/a"], vec![remnant("/b", RemnantKind::Interrupted)], vec![]);
    assert_eq!(
        json_document(&report, None),
        r#"{"activation_barred":false,"activation_barrier_path":null,"complete":false,"config_note":null,"external":[],"interrupted":true,"remnants":[{"detail":"reason","kind":"interrupted","logical":"/b"}],"removed":[{"kind":"file","logical":"/a"}],"secure_erasure":false}"#
    );
}

#[test]
fn a_clean_run_reads_as_complete_and_still_claims_no_erasure() {
    let report = report_with(&["/a", "/b"], vec![], vec![]);
    assert_eq!(
        render_report(&report, &Some(Lifecycle::Restored)),
        vec![
            PurgeMessage::RemovedCount { count: 2 },
            PurgeMessage::CompleteWithinRoots,
            PurgeMessage::ErasureCaveat,
            PurgeMessage::DaemonRestored,
        ]
    );
}

#[test]
fn a_partial_run_names_what_it_left() {
    let mut report = report_with(
        &[],
        vec![remnant("/b\x07", RemnantKind::Interrupted)],
        vec![ExternalRemnant { field: "f".to_string(), path: "/p".to_string() }],
    );
    report.config_note = Some("odd".to_string());
    assert_eq!(
        render_report(&report, &Some(Lifecycle::Barred("/x".to_string()))),
        vec![
            PurgeMessage::NothingRemoved,
            PurgeMessage::Interrupted,
            PurgeMessage::RemnantsHeader { count: 1 },
            PurgeMessage::RemnantLine {
                logical: "/b\\x07".to_string(),
                detail: "reason".to_string(),
            },
            PurgeMessage::ExternalHeader { count: 1 },
            PurgeMessage::ExternalLine { field: "f".to_string(), path: "/p".to_string() },
            PurgeMessage::ConfigNote { reason: "odd".to_string() },
            PurgeMessage::NotComplete,
            PurgeMessage::ErasureCaveat,
            PurgeMessage::ActivationLeftBarred { path: "/x".to_string() },
        ]
    );
}

#[test]
fn destruction_needs_its_own_authorization() {
    let asked = PurgeRequest::default();
    assert!(matches!(begin(&asked, false), PurgeStep::Refuse { .. }));
    assert!(matches!(
        begin(&asked, true),
        PurgeStep::Fail(PurgeMessage::DestructionNotAuthorized)
    ));
    let unasked = PurgeRequest { no_confirm: true, json: true, ..PurgeRequest::default() };
    assert!(matches!(begin(&unasked, true), PurgeStep::Fail(_)));
    let allowed = PurgeRequest { allow_destruction: true, ..PurgeRequest::default() };
    assert!(matches!(
        begin(&allowed, true),
        PurgeStep::Confirm(PurgeMessage::ConfirmPurge)
    ));
    let both = PurgeRequest { allow_destruction: true, ..unasked };
    assert!(matches!(begin(&both, true), PurgeStep::Purge));
    assert!(matches!(answered(true), PurgeStep::Purge));
    assert!(matches!(answered(false), PurgeStep::Leave(PurgeMessage::Cancelled)));
}

#[test]
fn a_dry_run_needs_no_authorization() {
    let asked = PurgeRequest { dry_run: true, ..PurgeRequest::default() };
    assert!(matches!(
        begin(&asked, true),
        PurgeStep::ReportOnly { header: Some(PurgeMessage::DryRunHeader) }
    ));
    let quiet = PurgeRequest { json: true, ..asked };
    assert!(matches!(begin(&quiet, true), PurgeStep::ReportOnly { header: None }));
}
