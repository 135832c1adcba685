//! The client of the daemon.

use facelock::ipc_client::{
    accepts, add_group_hint, auth_response, confirm, declines, is_access_denied, method_call,
    model_of, require_root, require_root_scripted, resolve_user, response, root_answered,
    send_request, should_use_direct, Arguments, AuthResult, BusDevice, Called, CallerNames, Cause,
    DaemonRequest, DaemonResponse, MatchResult, ModelInfo, Reply, RootStep, GROUP_HINT,
};

fn text(cause: &Cause) -> &str {
    match cause {
        Cause::Context(s) | Cause::AccessDenied(s) | Cause::Other(s) => s,
        Cause::MethodError { message, .. } => message,
    }
}

#[test]
fn access_denied_fdo_error_gets_group_hint() {
    let chain = vec![
        Cause::Context("D-Bus PreviewFrame call failed".to_string()),
        Cause::AccessDenied("rejected by policy".to_string()),
    ];
    let hinted = add_group_hint(chain);
    let msg = hinted.iter().map(text).collect::<Vec<_>>().join(": ");
    assert!(msg.contains("usermod -aG facelock"), "got: {msg}");
    assert!(msg.contains("log out"), "got: {msg}");
}

#[test]
fn non_access_denied_error_is_unchanged() {
    let chain = vec![
        Cause::Context("D-Bus Ping call failed".to_string()),
        Cause::Other("connection refused".to_string()),
    ];
    assert_eq!(add_group_hint(chain.clone()), chain);
}

#[test]
fn a_denial_is_known_by_its_name_too() {
    let named = |name: &str| {
        vec![Cause::MethodError { name: name.to_string(), message: "no".to_string() }]
    };
    assert!(is_access_denied(&named("org.freedesktop.DBus.Error.AccessDenied")));
    assert!(!is_access_denied(&named("org.freedesktop.DBus.Error.Failed")));
    assert!(!is_access_denied(&vec![]));
}

fn names(sudo: Option<&str>, doas: Option<&str>, user: Option<&str>, account: Option<&str>) -> CallerNames {
    CallerNames {
        sudo_user: sudo.map(Into::into),
        doas_user: doas.map(Into::into),
        user: user.map(Into::into),
        account: account.map(Into::into),
    }
}

#[test]
fn resolve_user_with_flag() {
    let user = resolve_user(Some("alice"), &names(Some("bob"), None, None, None));
    assert_eq!(user, "alice");
}

#[test]
fn resolve_user_no_flag_falls_through() {
    let all = names(Some("a"), Some("b"), Some("c"), Some("d"));
    assert_eq!(resolve_user(None, &all), "a");
    assert_eq!(resolve_user(None, &CallerNames { sudo_user: None, ..all.clone() }), "b");
    assert_eq!(resolve_user(None, &names(None, None, Some("c"), Some("d"))), "c");
    assert_eq!(resolve_user(None, &names(None, None, None, Some("d"))), "d");
    assert_eq!(resolve_user(None, &names(None, None, None, None)), "unknown");
}

#[test]
fn requests_become_calls() {
    let call = method_call(&DaemonRequest::Enroll { user: "a".into(), label: "l".into() });
    assert_eq!(call.method, "Enroll");
    assert_eq!(call.arguments, Arguments::TwoTexts("a".into(), "l".into()));
    let call = method_call(&DaemonRequest::RemoveModel { user: "a".into(), model_id: 7 });
    assert_eq!(call.method, "RemoveModel");
    assert_eq!(call.arguments, Arguments::TextAndNumber("a".into(), 7));
    let call = method_call(&DaemonRequest::Ping);
    assert_eq!((call.method, call.arguments), ("Ping", Arguments::Nothing));
}

#[test]
fn different_requests_are_different_calls() {
    let user = || "a".to_string();
    let all = vec![
        DaemonRequest::Authenticate { user: user() },
        DaemonRequest::Enroll { user: user(), label: user() },
        DaemonRequest::ListModels { user: user() },
        DaemonRequest::RemoveModel { user: user(), model_id: 1 },
        DaemonRequest::RemoveModel { user: user(), model_id: 2 },
        DaemonRequest::ClearModels { user: user() },
        DaemonRequest::PreviewFrame,
        DaemonRequest::PreviewDetectFrame { user: user() },
        DaemonRequest::ListDevices,
        DaemonRequest::ReleaseCamera,
        DaemonRequest::Ping,
        DaemonRequest::Shutdown,
    ];
    for (i, a) in all.iter().enumerate() {
        for (j, b) in all.iter().enumerate() {
            let (x, y) = (method_call(a), method_call(b));
            assert_eq!(i == j, x.method == y.method && x.arguments == y.arguments);
        }
    }
}

fn verdict(matched: bool, model_id: i32, label: &str) -> AuthResult {
    AuthResult { matched, model_id, label: label.to_string() }
}

#[test]
fn sentinel_numbers_are_an_error_and_a_suppression() {
    match auth_response(verdict(false, -2, "broken")) {
        DaemonResponse::Error { message } => assert_eq!(message, "broken"),
        other => panic!("{other:?}"),
    }
    assert!(matches!(auth_response(verdict(false, -3, "")), DaemonResponse::Suppressed));
    for (result, expected) in [
        (
            verdict(true, 4, "front"),
            MatchResult { matched: true, model_id: Some(4), label: Some("front".to_string()), failure_reason: None },
        ),
        (verdict(false, -1, ""), MatchResult { matched: false, model_id: None, label: None, failure_reason: None }),
        // A match is never taken for a sentinel.
        (
            verdict(true, -2, "x"),
            MatchResult { matched: true, model_id: None, label: Some("x".to_string()), failure_reason: None },
        ),
    ] {
        match auth_response(result) {
            DaemonResponse::AuthResult(m) => assert_eq!(m, expected),
            other => panic!("{other:?}"),
        }
    }
}

#[test]
fn the_empty_device_is_no_device() {
    let on_bus = |device_id: &str| ModelInfo {
        id: 3,
        user: "a".into(),
        label: "l".into(),
        created_at: 9,
        embedder_model: "e".into(),
        device_id: device_id.to_string(),
    };
    assert_eq!(model_of(&on_bus("")).device_id, None);
    let model = model_of(&on_bus("046d:085e:"));
    assert_eq!(model.device_id.as_deref(), Some("046d:085e:"));
    assert_eq!((model.id, model.created_at), (3, 9));
}

#[test]
fn replies_answer_their_own_requests() {
    let list = DaemonRequest::ListModels { user: "a".into() };
    assert!(matches!(response(&list, Reply::Models(vec![])), Some(DaemonResponse::Models(_))));
    assert!(response(&list, Reply::Nothing).is_none());
    let clear = DaemonRequest::ClearModels { user: "a".into() };
    assert!(matches!(response(&clear, Reply::Nothing), Some(DaemonResponse::Removed)));
    let ping = DaemonRequest::Ping;
    assert!(matches!(response(&ping, Reply::Text("pong".into())), Some(DaemonResponse::Done)));
    let cameras = vec![BusDevice {
        path: "/dev/video0".into(),
        name: "n".into(),
        driver: "d".into(),
        is_ir: true,
    }];
    match response(&DaemonRequest::ListDevices, Reply::Devices(cameras.clone())) {
        Some(DaemonResponse::Devices(found)) => assert_eq!(found, cameras),
        other => panic!("{other:?}"),
    }
    let frame = DaemonRequest::PreviewDetectFrame { user: "a".into() };
    match response(&frame, Reply::DetectFrame(vec![1, 2], vec![true, false])) {
        Some(DaemonResponse::DetectFrame { jpeg_data, recognized }) => {
            assert_eq!((jpeg_data, recognized), (vec![1, 2], vec![true, false]))
        }
        other => panic!("{other:?}"),
    }
}

#[test]
fn a_failed_call_names_its_method() {
    let ping = DaemonRequest::Ping;
    assert_eq!(
        send_request(&ping, Called::Failed(vec![Cause::Other("gone".into())])).unwrap_err(),
        vec![
            Cause::Context("D-Bus Ping call failed".to_string()),
            Cause::Other("gone".to_string())
        ]
    );
    assert_eq!(
        send_request(&ping, Called::Failed(vec![Cause::AccessDenied("no".into())])).unwrap_err(),
        vec![
            Cause::Context(GROUP_HINT.to_string()),
            Cause::Context("D-Bus Ping call failed".to_string()),
            Cause::AccessDenied("no".to_string())
        ]
    );
    assert_eq!(
        send_request(&ping, Called::Unconnected { error: "e".into() }).unwrap_err(),
        vec![Cause::Other("D-Bus connection failed: e".to_string())]
    );
    assert_eq!(
        send_request(&ping, Called::Unaddressed { error: "e".into() }).unwrap_err(),
        vec![Cause::Other("D-Bus proxy failed: e".to_string())]
    );
    assert!(send_request(&ping, Called::Returned(Reply::Text("pong".into()))).is_ok());
    assert_eq!(
        send_request(&ping, Called::Returned(Reply::Nothing)).unwrap_err(),
        vec![Cause::Context("D-Bus Ping call failed".to_string())]
    );
}

#[test]
fn root_is_offered_on_a_terminal_only() {
    assert!(matches!(require_root("sudo x", true, false), RootStep::Proceed));
    assert!(matches!(require_root("sudo x", false, true), RootStep::Offer));
    match require_root("sudo x", false, false) {
        RootStep::Refuse { message } => assert_eq!(message, "Root required.\n  Run: sudo x"),
        other => panic!("{other:?}"),
    }
    assert_eq!(
        require_root_scripted("sudo x", false),
        Err("Root required.\n  Run: sudo x".to_string())
    );
    assert!(require_root_scripted("sudo x", true).is_ok());
}

#[test]
fn answers_are_read_in_any_case() {
    for no in ["n\n", " NO \n", "No"] {
        assert!(matches!(root_answered("h", no), RootStep::Refuse { .. }), "{no:?}");
    }
    for other in ["\n", "y\n", "nope\n"] {
        assert!(matches!(root_answered("h", other), RootStep::Escalate), "{other:?}");
    }
    for yes in ["y\n", " YES ", "Yes\n"] {
        assert!(confirm(yes), "{yes:?}");
    }
    for other in ["", "\n", "n", "yep"] {
        assert!(!confirm(other), "{other:?}");
    }
    assert!(accepts("y") && accepts("yes") && !accepts("Y"));
    assert!(declines("n") && declines("no") && !declines(""));
}

#[test]
fn direct_mode_is_for_want_of_the_daemon() {
    assert!(should_use_direct(true, Some(true)));
    assert!(!should_use_direct(false, Some(true)));
    assert!(should_use_direct(false, Some(false)));
    assert!(should_use_direct(false, None));
}
