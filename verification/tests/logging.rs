//! How loud the process is.

use facelock::logging::{
    chosen_directives, directives_after, filter_for, readable, Program, DEFAULT_CLI_LOG_FILTER,
    DEFAULT_DAEMON_LOG_FILTER, LADDER, UNREADABLE_DIRECTIVE,
};

#[test]
fn every_rung_targets_the_bin_name_not_the_crate_directory_name() {
    for rung in LADDER {
        assert!(rung.contains("facelock="), "`{rung}` names no bin target");
        assert!(!rung.contains("facelock_cli"), "`{rung}` filters nothing");
        assert!(
            rung.contains("facelock_daemon="),
            "`{rung}` drops the auth-path library"
        );
    }
}

#[test]
fn default_log_filters_pinned() {
    assert_eq!(DEFAULT_CLI_LOG_FILTER, "facelock=warn,facelock_daemon=warn");
    assert_eq!(
        DEFAULT_DAEMON_LOG_FILTER,
        "facelock=info,facelock_daemon=info"
    );
}

#[test]
fn every_rung_parses() {
    for rung in LADDER {
        assert!(
            tracing_subscriber::EnvFilter::try_new(rung).is_ok(),
            "`{rung}` does not parse"
        );
    }
}

#[test]
fn the_cli_starts_quiet_and_the_daemon_starts_at_info() {
    assert_eq!(filter_for(Program::Cli, 0), DEFAULT_CLI_LOG_FILTER);
    assert_eq!(filter_for(Program::Daemon, 0), DEFAULT_DAEMON_LOG_FILTER);
}

#[test]
fn each_v_climbs_one_rung_and_the_ladder_saturates() {
    assert_eq!(
        filter_for(Program::Cli, 1),
        "facelock=info,facelock_daemon=info"
    );
    assert_eq!(
        filter_for(Program::Cli, 2),
        "facelock=debug,facelock_daemon=debug"
    );
    assert_eq!(
        filter_for(Program::Cli, 3),
        "facelock=trace,facelock_daemon=trace"
    );
    assert_eq!(
        filter_for(Program::Cli, u8::MAX),
        "facelock=trace,facelock_daemon=trace"
    );

    assert_eq!(
        filter_for(Program::Daemon, 1),
        "facelock=debug,facelock_daemon=debug"
    );
    assert_eq!(
        filter_for(Program::Daemon, u8::MAX),
        "facelock=trace,facelock_daemon=trace"
    );
}

#[test]
fn one_v_restores_the_volume_the_cli_used_to_have() {
    assert_eq!(filter_for(Program::Cli, 1), DEFAULT_DAEMON_LOG_FILTER);
}

#[test]
fn an_unset_rust_log_takes_the_programs_own_rung() {
    assert_eq!(
        chosen_directives(None, filter_for(Program::Cli, 0)).0,
        DEFAULT_CLI_LOG_FILTER
    );
    assert_eq!(
        chosen_directives(None, filter_for(Program::Daemon, 0)).0,
        DEFAULT_DAEMON_LOG_FILTER
    );
}

#[test]
fn rust_log_outranks_both_the_default_and_the_v_count() {
    let (chosen, rejected) = chosen_directives(Some("facelock=info"), filter_for(Program::Cli, 0));
    assert_eq!(chosen, "facelock=info");
    assert!(rejected.is_none());

    // The direction that is easy to get backwards: `RUST_LOG` wins even when
    // it is the quieter of the two.
    let (chosen, _) = chosen_directives(Some("facelock=error"), filter_for(Program::Cli, 3));
    assert_eq!(chosen, "facelock=error");
}

#[test]
fn the_stream_split_tests_bad_rust_log_fixture_really_is_unparseable() {
    let (chosen, rejected) = chosen_directives(Some("facelock=notalevel"), DEFAULT_CLI_LOG_FILTER);
    assert!(rejected.is_some(), "`facelock=notalevel` must be rejected");
    assert_eq!(chosen, DEFAULT_CLI_LOG_FILTER);
}

#[test]
fn a_valid_rust_log_is_honored_without_a_complaint() {
    assert!(
        chosen_directives(Some("facelock=trace"), DEFAULT_CLI_LOG_FILTER)
            .1
            .is_none()
    );
    assert!(
        chosen_directives(Some(DEFAULT_CLI_LOG_FILTER), DEFAULT_CLI_LOG_FILTER)
            .1
            .is_none()
    );
}

#[test]
fn the_empty_filter_is_accepted() {
    assert_eq!(chosen_directives(Some(""), DEFAULT_CLI_LOG_FILTER), (String::new(), None));
}

#[test]
fn a_directive_that_would_be_cut_inside_a_character_is_refused() {
    let fallback = filter_for(Program::Cli, 0);
    for raw in [" \u{e9}=x", "\u{3000}a=b", "facelock=info, \u{e9}=warn", "\u{85}=info"] {
        assert!(!readable(raw), "{raw:?}");
        let (directives, reason) = chosen_directives(Some(raw), fallback);
        assert_eq!(directives, fallback, "{raw:?}");
        assert_eq!(reason.as_deref(), Some(UNREADABLE_DIRECTIVE));
    }
    for raw in ["", "\u{e9}=info", " facelock=info", "a=info,b=debug", "a \u{e9}=info"] {
        assert!(readable(raw), "{raw:?}");
        let (_, reason) = chosen_directives(Some(raw), fallback);
        assert_ne!(reason.as_deref(), Some(UNREADABLE_DIRECTIVE));
    }
    // White space before a directive that is cut nowhere, or between characters.
    for raw in [" \u{e9}", "info, \u{e9}", "\u{3000}a", " a[b]\u{e9}", "  ab=x\u{e9}"] {
        assert!(readable(raw), "{raw:?}");
    }
    for raw in [" \u{e9}", "info, \u{e9}"] {
        let (directives, reason) = chosen_directives(Some(raw), fallback);
        assert_eq!(directives, raw);
        assert_eq!(reason, None);
    }
}

#[test]
fn a_complaint_sends_the_filter_back() {
    assert_eq!(
        directives_after("x", Some("bad".to_string()), "y"),
        ("y".to_string(), Some("bad".to_string()))
    );
    assert_eq!(directives_after("x", None, "y"), ("x".to_string(), None));
}

#[test]
fn only_the_daemon_names_targets() {
    assert!(Program::Daemon.renders_target());
    assert!(!Program::Cli.renders_target());
    assert_eq!(Program::Cli.base_rung(), 0);
    assert_eq!(Program::Daemon.base_rung(), 1);
}
