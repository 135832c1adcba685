//! The listing of face models.

use facelock::ipc_client::FaceModelInfo;
use facelock::list::{format_timestamp, list_json, print_table, table_lines, timestamp_text};

#[test]
fn format_timestamp_valid() {
    let formatted = format_timestamp(1700000000);
    assert!(formatted.contains("2023"), "expected 2023 in {formatted}");
}

#[test]
fn format_timestamp_zero() {
    let formatted = format_timestamp(0);
    assert!(
        formatted.contains("1970") || formatted.contains("1969"),
        "expected 1970 or 1969 (timezone-dependent) in {formatted}"
    );
}

fn model(label: &str, device_id: Option<&str>) -> FaceModelInfo {
    FaceModelInfo {
        id: 1,
        user: "alice".to_string(),
        label: label.to_string(),
        created_at: 1700000000,
        embedder_model: "w600k_r50.onnx".to_string(),
        device_id: device_id.map(str::to_string),
    }
}

#[test]
fn json_escapes_a_label_containing_a_quote() {
    let models = vec![model(r#"my "favorite" face"#, None)];
    let rendered = list_json(&models);
    let parsed: serde_json::Value = serde_json::from_str(&rendered).expect("must be valid JSON");
    assert_eq!(parsed[0]["label"], r#"my "favorite" face"#);
}

#[test]
fn json_escapes_a_label_containing_a_backslash() {
    let models = vec![model(r"back\slash", None)];
    let rendered = list_json(&models);
    let parsed: serde_json::Value = serde_json::from_str(&rendered).expect("must be valid JSON");
    assert_eq!(parsed[0]["label"], r"back\slash");
}

#[test]
fn list_json_output_matches_the_documented_shape() {
    let models = vec![model("front", Some("046d:085e:abc123"))];
    let rendered = list_json(&models);
    assert_eq!(
        rendered,
        r#"[{"created_at":1700000000,"device_id":"046d:085e:abc123","embedder_model":"w600k_r50.onnx","id":1,"label":"front","user":"alice"}]"#
    );
}

#[test]
fn json_renders_a_legacy_null_device_id_as_empty_string() {
    let models = vec![model("front", None)];
    let rendered = list_json(&models);
    let parsed: serde_json::Value = serde_json::from_str(&rendered).unwrap();
    assert_eq!(parsed[0]["device_id"], "");
}

#[test]
fn json_output_is_an_empty_array_when_no_models() {
    assert_eq!(list_json(&[]), "[]");
}

#[test]
fn a_time_without_a_date_is_its_number() {
    assert_eq!(timestamp_text(7, None), "7");
    assert_eq!(timestamp_text(7, Some("then".to_string())), "then");
    // The last second that has a date, and the first that has none.
    assert!(format_timestamp(8210266876799).contains("26214"));
    assert_eq!(format_timestamp(8210266876800), "8210266876800");
    assert_eq!(format_timestamp(9223372036854775807), "9223372036854775807");
}

#[test]
fn a_time_is_that_of_its_second() {
    // A day and a time in two digits each, and days apart whatever the zone.
    let of = |second: u64| format_timestamp(second);
    for text in [of(0), of(1700000000), of(8210266876799)] {
        let (day, time) = text.split_once(' ').unwrap();
        assert_eq!(time.split(':').map(str::len).collect::<Vec<_>>(), [2, 2, 2], "{text}");
        assert!(day.len() >= 10, "{text}");
    }
    let days = ["2023-11-13", "2023-11-14", "2023-11-15"];
    assert!(days.iter().any(|day| of(1700000000).starts_with(day)));
    assert_ne!(of(0), of(3 * 86400));
    // Past the range of a signed number it wraps round to before the epoch.
    let last = of(u64::MAX);
    assert!(last.starts_with("1969-12-31") || last.starts_with("1970-01-01"), "{last}");
    assert_eq!(of(1 << 63), "9223372036854775808");
}

#[test]
fn the_table_has_a_line_for_each_model() {
    let mut legacy = model("old", None);
    legacy.id = 12;
    legacy.embedder_model = String::new();
    legacy.device_id = Some(String::new());
    let models = vec![model("front", Some("046d:085e:abc123")), legacy];
    let created = vec!["2023-11-14 22:13:20".to_string(), "x".to_string()];
    assert_eq!(
        table_lines("alice", &models, &created),
        vec![
            "Face models for user 'alice':\n".to_string(),
            "  ID     Label                Created                  Model                  Camera"
                .to_string(),
            format!("  {}", "-".repeat(92)),
            "  1      front                2023-11-14 22:13:20      w600k_r50.onnx         046d:085e:abc123"
                .to_string(),
            "  12     old                  x                        (legacy)               (any)"
                .to_string(),
            "\n  Total: 2 model(s)".to_string(),
        ]
    );
}

#[test]
fn nobody_enrolled_is_one_line() {
    assert_eq!(
        print_table("bob", &Vec::new()),
        vec!["No face models enrolled for user 'bob'."]
    );
    assert_eq!(print_table("alice", &vec![model("front", None)]).len(), 5);
}

#[test]
fn a_long_label_pushes_its_columns() {
    let models = vec![model("a label of more than twenty", None)];
    let lines = table_lines("a", &models, &vec!["t".to_string()]);
    assert!(lines[3].contains("a label of more than twenty t "));
}
