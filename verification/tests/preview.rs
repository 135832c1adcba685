//! The preview: its form, its frames and its socket.

use facelock::message::{FaceMessage, UserMessage};
use facelock::preview::text_only::{
    first_of, frame_json, jpeg_dimensions, next_of, no_templates_notice, size_or_zero, FramesFrom,
    PreviewEvent, PreviewWork, StoreOpened,
};
use facelock::preview::wayland_socket::{
    check_owned, connect_failed, invoking_uid, is_bare_socket_name, is_wayland_socket_name,
    needs_scan, runtime_dir, socket_candidates, socket_missing, SocketStatus,
};
use facelock::preview::{
    graphical_unavailable_message, preview_mode, window_failed, BackendKind, PreviewMode,
};

#[test]
fn stopped_daemon_is_not_blamed_on_configuration() {
    assert_eq!(
        graphical_unavailable_message(BackendKind::DirectByFallback),
        UserMessage::PreviewGraphicalDaemonUnreachable
    );
    assert_eq!(
        graphical_unavailable_message(BackendKind::DirectByConfig),
        UserMessage::PreviewGraphicalNeedsDaemonOneshot
    );
}

#[test]
fn the_mode_follows_the_backend_and_the_flag() {
    assert_eq!(
        preview_mode(BackendKind::DirectByFallback, false, false),
        PreviewMode::TextDirect {
            notice: Some(UserMessage::PreviewGraphicalDaemonUnreachable)
        }
    );
    assert_eq!(
        preview_mode(BackendKind::DirectByConfig, false, true),
        PreviewMode::TextDirect { notice: None }
    );
    assert_eq!(preview_mode(BackendKind::Daemon, true, true), PreviewMode::Text);
    assert_eq!(preview_mode(BackendKind::Daemon, true, false), PreviewMode::Graphical);
    assert_eq!(
        window_failed("no display"),
        "Wayland preview unavailable: no display\nFalling back to text-only mode.\n"
    );
}

// -- the course of the text preview ----------------------------------------

fn course(from: FramesFrom, events: &[PreviewEvent]) -> Vec<PreviewWork> {
    let mut work = first_of(from);
    let mut seen = vec![work];
    for event in events {
        work = next_of(from, work, *event);
        seen.push(work);
    }
    seen
}

#[test]
fn an_absent_store_is_nobody_enrolled_and_an_unreadable_one_is_not() {
    let after = |opened| {
        next_of(FramesFrom::OwnCamera, PreviewWork::OpenStore, PreviewEvent::Store { opened })
    };
    assert_eq!(after(StoreOpened::Opened), PreviewWork::LoadTemplates);
    assert_eq!(after(StoreOpened::Absent), PreviewWork::TellNoTemplates);
    assert_eq!(after(StoreOpened::Unreadable), PreviewWork::Failed);
    assert_eq!(
        no_templates_notice("alice"),
        FaceMessage::NoModelsEnrolled { user: "alice".to_string() }
    );
}

#[test]
fn own_camera_skips_a_missed_frame_without_a_gap_in_the_numbers() {
    let seen = course(
        FramesFrom::OwnCamera,
        &[
            PreviewEvent::Done,
            PreviewEvent::Done,
            PreviewEvent::Store { opened: StoreOpened::Opened },
            PreviewEvent::Done,
            PreviewEvent::Done,
            PreviewEvent::Done,
            PreviewEvent::Failed,
            PreviewEvent::Done,
            PreviewEvent::Done,
            PreviewEvent::Interrupted,
        ],
    );
    assert_eq!(
        seen,
        vec![
            PreviewWork::OpenCamera,
            PreviewWork::LoadEngine,
            PreviewWork::OpenStore,
            PreviewWork::LoadTemplates,
            PreviewWork::Capture { taken: 0 },
            PreviewWork::Print { frame: 1 },
            PreviewWork::Capture { taken: 1 },
            PreviewWork::Capture { taken: 1 },
            PreviewWork::Print { frame: 2 },
            PreviewWork::Capture { taken: 2 },
            PreviewWork::Finished,
        ]
    );
}

#[test]
fn own_camera_that_does_not_open_fails_the_preview() {
    let failed = course(FramesFrom::OwnCamera, &[PreviewEvent::Failed]);
    assert_eq!(failed, vec![PreviewWork::OpenCamera, PreviewWork::Failed]);
}

#[test]
fn the_daemons_camera_is_let_go_however_the_preview_ends() {
    let from = FramesFrom::Daemon;
    let tail = |events: &[PreviewEvent]| course(from, events).split_off(1);
    assert_eq!(
        tail(&[PreviewEvent::Interrupted, PreviewEvent::Done]),
        vec![PreviewWork::ReleaseCamera, PreviewWork::Finished]
    );
    assert_eq!(
        tail(&[PreviewEvent::Failed, PreviewEvent::Done, PreviewEvent::Failed]),
        vec![PreviewWork::TellFailure, PreviewWork::ReleaseCamera, PreviewWork::Finished]
    );
    assert_eq!(
        tail(&[PreviewEvent::Done, PreviewEvent::Failed, PreviewEvent::Done]),
        vec![PreviewWork::Print { frame: 1 }, PreviewWork::ReleaseCamera, PreviewWork::Finished]
    );
}

// -- frames ---------------------------------------------------------------

#[test]
fn jpeg_dimensions_returns_zero_for_invalid() {
    let (w, h) = jpeg_dimensions(&[0, 1, 2, 3]);
    assert_eq!((w, h), (0, 0));
}

#[test]
fn a_size_that_was_read_is_kept() {
    assert_eq!(size_or_zero(Some((640, 480))), (640, 480));
    assert_eq!(size_or_zero(None), (0, 0));
}

/// The head of a JPEG picture of 3 by 2 grey pixels: start, frame, tables, scan.
fn small_jpeg() -> Vec<u8> {
    let mut bytes: Vec<u8> = vec![0xff, 0xd8];
    // A quantization table of ones.
    bytes.extend([0xff, 0xdb, 0x00, 0x43, 0x00]);
    bytes.extend([1u8; 64]);
    // A baseline frame of one component, two rows of three.
    bytes.extend([0xff, 0xc0, 0x00, 0x0b, 0x08, 0x00, 0x02, 0x00, 0x03, 0x01, 0x01, 0x11, 0x00]);
    // A table with one code of one bit, for each of the two kinds.
    for kind in [0x00u8, 0x10] {
        bytes.extend([0xff, 0xc4, 0x00, 0x14, kind, 1]);
        bytes.extend([0u8; 15]);
        bytes.push(0);
    }
    bytes.extend([0xff, 0xda, 0x00, 0x08, 0x01, 0x01, 0x00, 0x00, 0x3f, 0x00]);
    bytes.extend([0x3f, 0xff, 0xd9]);
    bytes
}

#[test]
fn the_size_of_a_picture_is_read_from_its_head() {
    assert_eq!(jpeg_dimensions(&small_jpeg()), (3, 2));
}

fn face(
    x: f32,
    y: f32,
    width: f32,
    height: f32,
    confidence: f32,
    similarity: f32,
    recognized: bool,
) -> serde_json::Value {
    let mut row = serde_json::Map::new();
    let mut number = |key: &str, n: f32| row.insert(key.to_string(), serde_json::Value::from(n));
    number("x", x);
    number("y", y);
    number("width", width);
    number("height", height);
    number("confidence", (confidence * 1000.0).round() / 1000.0);
    number("similarity", (similarity * 1000.0).round() / 1000.0);
    row.insert("recognized".to_string(), serde_json::Value::Bool(recognized));
    serde_json::Value::Object(row)
}

fn rate(fps: f32) -> serde_json::Value {
    serde_json::Value::from((fps * 10.0).round() / 10.0)
}

#[test]
fn daemon_frame_is_the_documented_json_line() {
    let frame = frame_json(
        7,
        rate(15.24),
        Some(4096),
        640,
        480,
        vec![face(10.0, 20.0, 100.0, 120.0, 0.98765, 0.61234, true)],
    );

    assert_eq!(
        frame.to_string(),
        [
            r#"{"faces":[{"confidence":0.9879999756813049,"height":120.0,"#,
            r#""recognized":true,"similarity":0.6119999885559082,"#,
            r#""width":100.0,"x":10.0,"y":20.0}],"#,
            r#""fps":15.199999809265137,"frame":7,"height":480,"#,
            r#""jpeg_size":4096,"recognized":1,"unrecognized":0,"width":640}"#,
        ]
        .concat()
    );
}

#[test]
fn direct_frame_omits_jpeg_size_and_keeps_every_other_key() {
    let frame = frame_json(1, rate(0.0), None, 1280, 720, Vec::new());

    let object = frame.as_object().expect("a frame is a JSON object");
    let mut keys: Vec<&str> = object.keys().map(String::as_str).collect();
    keys.sort_unstable();
    assert_eq!(
        keys,
        [
            "faces",
            "fps",
            "frame",
            "height",
            "recognized",
            "unrecognized",
            "width",
        ]
    );
}

#[test]
fn counts_are_derived_from_the_face_rows() {
    let frame = frame_json(
        1,
        rate(30.0),
        None,
        640,
        480,
        vec![
            face(0.0, 0.0, 1.0, 1.0, 0.9, 0.7, true),
            face(0.0, 0.0, 1.0, 1.0, 0.9, 0.1, false),
            face(0.0, 0.0, 1.0, 1.0, 0.9, 0.2, false),
        ],
    );

    assert_eq!(frame["recognized"], 1);
    assert_eq!(frame["unrecognized"], 2);
}

#[test]
fn a_row_that_does_not_say_so_is_not_recognized() {
    let mut odd = serde_json::Map::new();
    odd.insert("recognized".to_string(), serde_json::Value::String("true".to_string()));
    let rows = vec![
        serde_json::Value::Object(odd),
        serde_json::Value::Null,
        serde_json::Value::Bool(true),
    ];
    let frame = frame_json(1, rate(1.0), None, 1, 1, rows);
    assert_eq!(frame["recognized"], 0);
    assert_eq!(frame["unrecognized"], 3);
}

// -- the socket -----------------------------------------------------------

fn names(list: &[&str]) -> Result<Vec<String>, String> {
    Ok(list.iter().map(|n| n.to_string()).collect())
}

#[test]
fn sudo_uid_wins() {
    // The resolver must not be consulted when the first answers.
    assert_eq!(
        invoking_uid(Some("1000"), Some("alice"), |_: &str| panic!("resolver called"), 5),
        1000
    );
}

#[test]
fn doas_user_resolves_when_sudo_uid_absent_or_garbage() {
    for sudo_uid in [None, Some("not-a-number")] {
        assert_eq!(
            invoking_uid(
                sudo_uid,
                Some("alice"),
                |name: &str| (name == "alice").then_some(1042),
                5
            ),
            1042
        );
    }
}

#[test]
fn falls_back_to_current_uid() {
    assert_eq!(invoking_uid(None, None, |_: &str| None, 1234), 1234);
    assert_eq!(invoking_uid(None, Some("ghost"), |_: &str| None, 1234), 1234);
    assert_eq!(runtime_dir(1234), "/run/user/1234");
}

#[test]
fn bare_display_name_is_the_single_candidate() {
    let found = socket_candidates("/run/user/1", Some("wayland-1"), names(&[])).unwrap();
    assert_eq!(found, vec!["wayland-1"]);
    assert!(!needs_scan(Some("wayland-1")));
}

#[test]
fn a_display_with_a_path_in_it_is_ignored() {
    for hostile in ["/tmp/evil/wayland-0", "../../../tmp/evil", "a/b", "", ".", ".."] {
        assert!(needs_scan(Some(hostile)));
        let found =
            socket_candidates("/run/user/1", Some(hostile), names(&["wayland-1"])).unwrap();
        assert_eq!(found, vec!["wayland-1"], "for {hostile}");
    }
}

#[test]
fn the_scan_skips_lock_files_and_foreign_names_and_sorts() {
    let entries = names(&["wayland-2", "wayland-1", "wayland-1.lock", "pipewire-0", "bus"]);
    assert_eq!(
        socket_candidates("/run/user/1", None, entries).unwrap(),
        vec!["wayland-1", "wayland-2"]
    );
}

#[test]
fn empty_scan_is_an_error_naming_the_directory() {
    let err = socket_candidates("/run/user/7", None, names(&[])).unwrap_err();
    assert_eq!(err, vec!["no wayland-* socket in /run/user/7"]);
}

#[test]
fn missing_runtime_dir_is_an_error() {
    let err = socket_candidates("/run/user/999999", None, Err("no such file".to_string()))
        .unwrap_err();
    assert!(err[0].contains("no session runtime directory"));
    assert_eq!(err[1], "no such file");
}

#[test]
fn only_the_users_own_socket_is_connected_to() {
    let status = |is_socket: bool, uid: u32| SocketStatus { is_socket, uid };
    assert!(check_owned("/s", status(true, 5), 5).is_ok());
    assert_eq!(check_owned("/s", status(false, 5), 5), Err("/s is not a socket".to_string()));
    assert_eq!(
        check_owned("/s", status(true, 6), 5),
        Err("/s is owned by uid 6, not the invoking uid 5".to_string())
    );
    assert_eq!(socket_missing("/s"), "no Wayland socket at /s");
    assert_eq!(connect_failed("/s"), "failed to connect to /s");
}

#[test]
fn names_are_told_apart() {
    assert!(is_bare_socket_name("wayland-0") && !is_bare_socket_name("a/b"));
    assert!(is_wayland_socket_name("wayland-0"));
    assert!(!is_wayland_socket_name("wayland-0.lock"));
    assert!(!is_wayland_socket_name("x-wayland-0"));
}
