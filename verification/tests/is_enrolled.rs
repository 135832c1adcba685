//! Whether a user is enrolled.

use facelock::ipc_client::CallerNames;
use facelock::is_enrolled::{enrolled_json, exit_code, report, run, Marker, MarkerState, Printed};

fn enrolled(models: u64) -> MarkerState {
    MarkerState::Enrolled(Marker { models, updated: "2026-08-12T00:00:00Z".to_string() })
}

#[test]
fn enrolled_user_exits_zero() {
    assert_eq!(exit_code(&enrolled(2)), 0);
}

#[test]
fn missing_marker_exits_one() {
    assert_eq!(exit_code(&MarkerState::Absent), 1);
}

#[test]
fn an_unreadable_marker_exits_two() {
    assert_eq!(exit_code(&MarkerState::Unreadable("corrupt".to_string())), 2);
}

#[test]
fn json_still_produces_the_contract_exit_codes() {
    for json in [false, true] {
        assert_eq!(report(&enrolled(1), json).1, 0);
        assert_eq!(report(&MarkerState::Absent, json).1, 1);
    }
}

#[test]
fn is_enrolled_json_output_matches_the_documented_shape() {
    let marker = Marker {
        models: 2,
        updated: "2026-08-12T00:00:00Z".into(),
    };
    assert_eq!(
        enrolled_json(Some(&marker)),
        r#"{"enrolled":true,"models":2,"updated":"2026-08-12T00:00:00Z"}"#
    );
    assert_eq!(
        enrolled_json(None),
        r#"{"enrolled":false,"models":0,"updated":null}"#
    );
}

#[test]
fn json_escapes_a_hostile_timestamp() {
    let marker = Marker {
        models: 1,
        updated: "\" ,\"enrolled\":false".into(),
    };
    let rendered = enrolled_json(Some(&marker));
    // Must still parse, and must still say enrolled.
    let parsed: serde_json::Value = serde_json::from_str(&rendered).unwrap();
    assert_eq!(parsed["enrolled"], serde_json::Value::Bool(true));
}

#[test]
fn the_state_is_a_word_or_a_complaint() {
    assert_eq!(report(&enrolled(1), false).0, Printed::Payload("enrolled".to_string()));
    assert_eq!(
        report(&MarkerState::Absent, false).0,
        Printed::Payload("not-enrolled".to_string())
    );
    for json in [false, true] {
        assert_eq!(
            report(&MarkerState::Unreadable("bad".to_string()), json).0,
            Printed::Complaint("facelock is-enrolled: bad".to_string())
        );
    }
}

#[test]
fn the_command_asks_about_the_resolved_user() {
    let names = CallerNames {
        sudo_user: Some("alice".to_string()),
        doas_user: None,
        user: Some("root".to_string()),
        account: None,
    };
    let read = |name: &str| if name == "alice" { enrolled(3) } else { MarkerState::Absent };
    assert_eq!(run(None, false, &names, read).1, 0);
    assert_eq!(run(Some("bob"), false, &names, read).1, 1);
    assert_eq!(
        run(None, true, &names, read).0,
        Printed::Payload(
            r#"{"enrolled":true,"models":3,"updated":"2026-08-12T00:00:00Z"}"#.to_string()
        )
    );
}
