//! The lease on the daemon's life, driven against a systemd held in memory.

use std::sync::Mutex;

use facelock::lifecycle::activation::activation_delegates;
use facelock::lifecycle::identity::{
    acquire_lifecycle_lock, create_barrier, needs_repair, open_trusted_dir, private_empty_file,
    probe_control_path, remove_barrier, verify_activation_delegation, ControlEntry, Created,
    DefinitionFacts, FileIdentity, LockFacts, LockOpened, Locked, Opened, Removal,
};
use facelock::lifecycle::layout::{duration_of, AcquireTuning, LifecycleError, LifecycleLayout};
use facelock::lifecycle::stage::{
    release_leaving_activation_barred, require_systemd, restore, restore_steps, stage, RestoreMode,
    RestoreResults, RestoreStep, Seen, StageStep, Staged,
};
use facelock::lifecycle::unit::{
    admissible, parse_show_output, BusProbe, Ran, Systemctl, UnitManager, UnitProperties,
    UnitRequest,
};

const DELEGATING_ACTIVATION: &str = "[D-BUS Service]\nName=org.facelock.Daemon\nExec=/bin/false\nUser=root\nSystemdService=facelock-daemon.service\n";

fn layout() -> LifecycleLayout {
    LifecycleLayout::rooted_at("/fixture".to_string(), 0, 0)
}

/// A file of root's that only root can use, and that holds nothing.
fn private() -> FileIdentity {
    FileIdentity {
        is_file: true,
        links: 1,
        len: 0,
        mode: 0o600,
        uid: 0,
        gid: 0,
        dev: 1,
        ino: 7,
    }
}

fn directory() -> FileIdentity {
    FileIdentity { is_file: false, mode: 0o755, ..private() }
}

struct Host {
    load_state: String,
    active_state: String,
    stop_leaves_active: bool,
    reload_never_masks: bool,
    fail_start: bool,
    name_owned: bool,
    systemd: bool,
    lock_held: bool,
    activation: Option<String>,
    control: Opened,
    log: Vec<String>,
}

struct MockSystemd(Mutex<Host>);

impl MockSystemd {
    fn new(active: bool) -> Self {
        Self::with(active, |_| {})
    }

    fn with(active: bool, adjust: impl FnOnce(&mut Host)) -> Self {
        let mut host = Host {
            load_state: "loaded".to_string(),
            active_state: if active { "active" } else { "inactive" }.to_string(),
            stop_leaves_active: false,
            reload_never_masks: false,
            fail_start: false,
            name_owned: false,
            systemd: true,
            lock_held: false,
            activation: Some(DELEGATING_ACTIVATION.to_string()),
            control: Opened::Missing,
            log: Vec::new(),
        };
        adjust(&mut host);
        Self(Mutex::new(host))
    }

    fn log(&self) -> Vec<String> {
        self.0.lock().unwrap().log.clone()
    }

    fn barrier_exists(&self) -> bool {
        self.0.lock().unwrap().control != Opened::Missing
    }

    fn note(&self, word: &str) {
        self.0.lock().unwrap().log.push(word.to_string());
    }
}

impl UnitManager for MockSystemd {
    fn show(&self) -> Result<UnitProperties, LifecycleError> {
        let host = self.0.lock().unwrap();
        Ok(UnitProperties {
            load_state: host.load_state.clone(),
            active_state: host.active_state.clone(),
            unit_file_state: "enabled".to_string(),
        })
    }

    fn daemon_reload(&self) -> Result<(), LifecycleError> {
        self.note("daemon-reload");
        let masked = self.barrier_exists();
        let mut host = self.0.lock().unwrap();
        if !host.reload_never_masks {
            host.load_state = if masked { "masked" } else { "loaded" }.to_string();
        }
        Ok(())
    }

    fn stop(&self) -> Result<(), LifecycleError> {
        self.note("stop");
        let mut host = self.0.lock().unwrap();
        if !host.stop_leaves_active {
            host.active_state = "inactive".to_string();
        }
        Ok(())
    }

    fn start(&self) -> Result<(), LifecycleError> {
        self.note("start");
        let mut host = self.0.lock().unwrap();
        if host.fail_start {
            return Err(LifecycleError::Systemctl {
                action: "start".to_string(),
                detail: "injected failure".to_string(),
            });
        }
        host.active_state = "active".to_string();
        Ok(())
    }
}

impl BusProbe for MockSystemd {
    fn daemon_name_has_owner(&self) -> Result<bool, LifecycleError> {
        Ok(self.0.lock().unwrap().name_owned)
    }
}

fn definitions(unit: &MockSystemd) -> Vec<DefinitionFacts> {
    let text = unit.0.lock().unwrap().activation.clone();
    let mut facts: Vec<DefinitionFacts> = Vec::new();
    for i in 0..5 {
        facts.push(match (&text, i) {
            (Some(text), 1) => DefinitionFacts {
                opened: Opened::File(FileIdentity { mode: 0o644, len: 9, ..private() }),
                text: Ok(text.clone()),
            },
            _ => DefinitionFacts { opened: Opened::Missing, text: Ok(String::new()) },
        });
    }
    facts
}

/// Carries out the steps towards a lease; on failure everything is undone.
fn acquire(unit: &MockSystemd) -> Result<Staged, LifecycleError> {
    let layout = layout();
    require_systemd(&layout, unit.0.lock().unwrap().systemd)?;
    let held = unit.0.lock().unwrap().lock_held;
    acquire_lifecycle_lock(
        &layout,
        &LockFacts {
            dir_failed: None,
            dir: Ok(directory()),
            file: LockOpened::File(private()),
            locked: if held { Locked::Held } else { Locked::Taken },
            on_disk: Ok(private()),
        },
    )?;
    unit.0.lock().unwrap().lock_held = true;
    let mut staged = Staged::new();
    let mut step = StageStep::VerifyDelegation;
    let tuning = AcquireTuning { stop_timeout_ms: 50, bus_timeout_ms: 50, poll_interval_ms: 5 };
    loop {
        let seen = match step {
            StageStep::VerifyDelegation => {
                Seen::Work(verify_activation_delegation(&layout, &definitions(unit)))
            }
            StageStep::ProbeControl => {
                let entry = unit.0.lock().unwrap().control.clone();
                Seen::Control(probe_control_path(&layout, &entry))
            }
            StageStep::RecordUnit | StageStep::ProveMasked | StageStep::AwaitInactive => {
                Seen::Unit { shown: unit.show(), late: true }
            }
            StageStep::CreateBarrier => {
                unit.0.lock().unwrap().control = Opened::File(private());
                Seen::Work(create_barrier(&layout, &Created::File(private())))
            }
            StageStep::Reload => Seen::Work(unit.daemon_reload()),
            StageStep::Stop => Seen::Work(unit.stop()),
            StageStep::AwaitName => {
                Seen::Owner { owned: unit.daemon_name_has_owner(), late: true }
            }
            StageStep::Held => return Ok(staged),
        };
        match stage(&layout, &mut staged, step, seen, &tuning) {
            Ok(next) => step = next,
            Err(error) => {
                release(unit, &staged, RestoreMode::Full).ok();
                return Err(error);
            }
        }
    }
}

fn release(unit: &MockSystemd, staged: &Staged, mode: RestoreMode) -> Result<(), LifecycleError> {
    let mut results =
        RestoreResults { removed: None, reloaded: None, unmasked: None, started: None };
    for step in restore_steps(staged, false, mode) {
        match step {
            RestoreStep::RemoveBarrier => {
                match remove_barrier("/barrier", &Ok(private()), &Ok(Some(private()))) {
                    Removal::Unlink => {
                        unit.0.lock().unwrap().control = Opened::Missing;
                        results.removed = Some(Ok(()));
                    }
                    other => panic!("{other:?}"),
                }
            }
            RestoreStep::RemoveControlDir => {}
            RestoreStep::Reload => results.reloaded = Some(unit.daemon_reload()),
            RestoreStep::ProveUnmasked => results.unmasked = Some(unit.show()),
            RestoreStep::Start => results.started = Some(unit.start()),
            RestoreStep::ReleaseLock => unit.0.lock().unwrap().lock_held = false,
        }
    }
    restore(&layout(), &results)
}

#[test]
fn a_step_waits_until_its_time_is_over() {
    let tuning = AcquireTuning { stop_timeout_ms: 50, bus_timeout_ms: 70, poll_interval_ms: 5 };
    let look = |late| {
        let seen = Seen::Owner { owned: Ok(true), late };
        stage(&layout(), &mut Staged::new(), StageStep::AwaitName, seen, &tuning)
    };
    assert_eq!(look(false), Ok(StageStep::AwaitName));
    assert_eq!(look(true), Err(LifecycleError::NameStillOwned { timeout_ms: 70 }));
    // What was seen of another step moves nothing.
    let mut staged = Staged::new();
    let other = Seen::Owner { owned: Ok(false), late: false };
    let next = stage(&layout(), &mut staged, StageStep::CreateBarrier, other, &tuning);
    assert_eq!(next, Ok(StageStep::CreateBarrier));
    assert_eq!(staged, Staged::new());
}

#[test]
fn acquiring_masks_and_stops_an_active_daemon() {
    let unit = MockSystemd::new(true);
    let staged = acquire(&unit).expect("acquire");
    assert!(staged.was_active && staged.barrier && staged.restart);
    assert_eq!(staged.unit_file_state, "enabled");
    assert_eq!(unit.log(), ["daemon-reload", "stop"]);
}

#[test]
fn drop_restores_an_active_daemon_and_removes_the_barrier() {
    let unit = MockSystemd::new(true);
    let staged = acquire(&unit).expect("acquire");
    release(&unit, &staged, RestoreMode::Full).expect("release");

    assert!(!unit.barrier_exists());
    assert_eq!(
        unit.log(),
        ["daemon-reload", "stop", "daemon-reload", "start"]
    );
    // The lock is released: a fresh acquisition succeeds.
    acquire(&unit).expect("reacquire");
}

#[test]
fn drop_leaves_a_previously_inactive_daemon_stopped() {
    let unit = MockSystemd::with(false, |host| host.activation = None);
    let staged = acquire(&unit).expect("acquire");
    assert!(!staged.was_active);
    release(&unit, &staged, RestoreMode::Full).expect("release");

    assert!(!unit.log().contains(&"stop".to_string()));
    assert!(!unit.log().contains(&"start".to_string()));
}

#[test]
fn a_second_acquisition_fails_while_the_lease_is_held() {
    let unit = MockSystemd::new(false);
    acquire(&unit).expect("acquire");
    let before = unit.log();
    match acquire(&unit) {
        Err(LifecycleError::LockHeld(path)) => assert_eq!(path, layout().lock_path()),
        other => panic!("expected LockHeld, got {other:?}"),
    }
    // The contender must not have touched the daemon.
    assert_eq!(unit.log(), before);
}

#[test]
fn acquisition_fails_without_a_booted_systemd() {
    let unit = MockSystemd::with(false, |host| host.systemd = false);
    match acquire(&unit) {
        Err(LifecycleError::NoSystemd(_)) => {}
        other => panic!("expected NoSystemd, got {other:?}"),
    }
    assert!(unit.log().is_empty());
}

#[test]
fn a_non_delegating_activation_definition_fails_closed() {
    let unit = MockSystemd::with(true, |host| {
        host.activation = Some(
            "[D-BUS Service]\nName=org.facelock.Daemon\nExec=/usr/bin/facelock daemon\nUser=root\n"
                .to_string(),
        )
    });
    match acquire(&unit) {
        Err(LifecycleError::ActivationNotDelegated { reason, .. }) => {
            assert!(reason.contains("SystemdService"), "reason: {reason}");
        }
        other => panic!("expected ActivationNotDelegated, got {other:?}"),
    }
    // Fail-closed means fail before mutation: no barrier, daemon untouched.
    assert!(!unit.barrier_exists());
    assert!(unit.log().is_empty());
    // And the lock was released for the next attempt.
    unit.0.lock().unwrap().activation = Some(DELEGATING_ACTIVATION.to_string());
    acquire(&unit).expect("reacquire");
}

#[test]
fn the_shipped_activation_definition_delegates() {
    assert_eq!(activation_delegates(DELEGATING_ACTIVATION), Ok(()));
}

#[test]
fn activation_grammar_failures_are_named() {
    for (content, needle) in [
        (
            "[D-BUS Service]\nName=other.Name\nSystemdService=facelock-daemon.service\n",
            "Name is",
        ),
        (
            "[D-BUS Service]\nName=org.facelock.Daemon\nSystemdService=other.service\n",
            "SystemdService is",
        ),
        ("Name=org.facelock.Daemon\n", "outside"),
        (
            "[D-BUS Service]\n[Other]\nName=org.facelock.Daemon\n",
            "unexpected section",
        ),
        (
            "[D-BUS Service]\nName=org.facelock.Daemon\nName=org.facelock.Daemon\n",
            "duplicate Name",
        ),
        (
            "[D-BUS Service]\nName=org.facelock.Daemon\nUnknownKey=x\n",
            "unrecognized key",
        ),
        (
            "[D-BUS Service]\nName=org.facelock.Daemon\nnot a key value line\n",
            "unparseable",
        ),
    ] {
        let result = activation_delegates(content);
        let reason = result.expect_err(content);
        assert!(reason.contains(needle), "{content:?} -> {reason}");
    }
}

#[test]
fn a_stale_barrier_is_adopted_and_cleared() {
    let unit = MockSystemd::with(false, |host| {
        host.load_state = "masked".to_string();
        host.control = Opened::File(private());
    });
    let staged = acquire(&unit).expect("acquire");
    assert!(staged.adopted && staged.barrier);
    release(&unit, &staged, RestoreMode::Full).expect("release");
    assert!(!unit.barrier_exists());
    assert_eq!(unit.show().unwrap().load_state, "loaded");
}

#[test]
fn a_masked_unit_without_a_stale_barrier_fails_closed() {
    let unit = MockSystemd::with(false, |host| host.load_state = "masked".to_string());
    match acquire(&unit) {
        Err(LifecycleError::UnitStateNotAdmissible { state, .. }) => {
            assert_eq!(state, "masked");
        }
        other => panic!("expected UnitStateNotAdmissible, got {other:?}"),
    }
    assert!(!unit.barrier_exists());
}

#[test]
fn a_foreign_file_at_the_barriers_path_fails_closed() {
    for entry in [
        Opened::File(FileIdentity { len: 7, ..private() }),
        Opened::File(FileIdentity { uid: 1000, ..private() }),
        Opened::Link,
    ] {
        let unit = MockSystemd::with(false, |host| host.control = entry.clone());
        match acquire(&unit) {
            Err(LifecycleError::ControlPathConflict { .. }) => {}
            other => panic!("expected ControlPathConflict, got {other:?}"),
        }
        assert!(unit.barrier_exists());
        assert!(unit.log().is_empty());
    }
}

#[test]
fn an_ineffective_barrier_rolls_back() {
    let unit = MockSystemd::with(true, |host| host.reload_never_masks = true);
    match acquire(&unit) {
        Err(LifecycleError::BarrierNotEffective { load_state, .. }) => {
            assert_eq!(load_state, "loaded");
        }
        other => panic!("expected BarrierNotEffective, got {other:?}"),
    }
    // Rollback removed the barrier and never stopped the daemon.
    assert!(!unit.barrier_exists());
    assert!(!unit.log().contains(&"stop".to_string()));
    assert_eq!(unit.show().expect("show").active_state, "active");
}

#[test]
fn a_daemon_that_will_not_stop_fails_closed_and_rolls_back() {
    let unit = MockSystemd::with(true, |host| host.stop_leaves_active = true);
    match acquire(&unit) {
        Err(LifecycleError::DaemonNotStopped { state, .. }) => assert_eq!(state, "active"),
        other => panic!("expected DaemonNotStopped, got {other:?}"),
    }
    // Rollback removed the barrier and restarted what it had stopped.
    assert!(!unit.barrier_exists());
    assert!(unit.log().contains(&"start".to_string()));
}

#[test]
fn a_still_owned_bus_name_fails_closed_and_rolls_back() {
    let unit = MockSystemd::with(true, |host| host.name_owned = true);
    match acquire(&unit) {
        Err(LifecycleError::NameStillOwned { .. }) => {}
        other => panic!("expected NameStillOwned, got {other:?}"),
    }
    assert!(!unit.barrier_exists());
    assert!(unit.log().contains(&"start".to_string()));
}

#[test]
fn release_reports_a_failed_restart() {
    let unit = MockSystemd::with(true, |host| host.fail_start = true);
    let staged = acquire(&unit).expect("acquire");
    match release(&unit, &staged, RestoreMode::Full) {
        Err(LifecycleError::RestoreIncomplete(detail)) => {
            assert!(detail.contains("restart"), "detail: {detail}");
        }
        other => panic!("expected RestoreIncomplete, got {other:?}"),
    }
    // The barrier still came down even though the restart failed.
    assert!(!unit.barrier_exists());
}

#[test]
fn release_leaving_activation_barred_keeps_the_barrier() {
    let unit = MockSystemd::new(true);
    let staged = acquire(&unit).expect("acquire");
    release(&unit, &staged, RestoreMode::LeaveBarred).expect("barred release");
    let barred_at = release_leaving_activation_barred(&layout(), true).expect("barred release");
    assert_eq!(barred_at, layout().barrier_path());
    assert!(unit.barrier_exists());
    assert!(!unit.log().contains(&"start".to_string()));
    // The next lifecycle operation adopts the deliberate barrier the same way
    // it adopts a stale one, and restores from it.
    let staged = acquire(&unit).expect("adopting acquire");
    release(&unit, &staged, RestoreMode::Full).expect("release");
    assert!(!unit.barrier_exists());
    assert_eq!(
        release_leaving_activation_barred(&layout(), false),
        Err(LifecycleError::RestoreIncomplete("lease was already released".to_string()))
    );
}

#[test]
fn show_output_parsing_is_strict() {
    let ok = parse_show_output("LoadState=loaded\nActiveState=active\nUnitFileState=enabled\n")
        .expect("parse");
    assert_eq!(ok.load_state, "loaded");
    assert_eq!(ok.active_state, "active");
    assert_eq!(ok.unit_file_state, "enabled");
    // An empty value is a value: a not-found unit prints UnitFileState=.
    let not_found =
        parse_show_output("LoadState=not-found\nActiveState=inactive\nUnitFileState=\n")
            .expect("parse");
    assert_eq!(not_found.unit_file_state, "");
    for (text, needle) in [
        ("LoadState=loaded\nActiveState=active\n", "missing"),
        (
            "LoadState=loaded\nLoadState=masked\nActiveState=active\nUnitFileState=\n",
            "duplicate",
        ),
        ("garbage\n", "unparseable"),
        (
            "LoadState=loaded\nActiveState=active\nUnitFileState=\nOther=x\n",
            "unexpected",
        ),
    ] {
        let reason = parse_show_output(text).expect_err(text);
        assert!(reason.contains(needle), "{text:?} -> {reason}");
    }
}

#[test]
fn transitions_are_not_admissible() {
    let props = |load: &str, active: &str| UnitProperties {
        load_state: load.to_string(),
        active_state: active.to_string(),
        unit_file_state: String::new(),
    };
    assert!(admissible(&props("loaded", "active"), false).is_ok());
    assert!(admissible(&props("loaded", "inactive"), false).is_ok());
    assert!(admissible(&props("masked", "inactive"), true).is_ok());
    assert!(admissible(&props("masked", "inactive"), false).is_err());
    assert!(admissible(&props("loaded", "activating"), false).is_err());
}

#[test]
fn systemctl_is_asked_and_read() {
    assert_eq!(
        Systemctl.arguments(UnitRequest::Show),
        [
            "show",
            "facelock-daemon.service",
            "-p",
            "LoadState",
            "-p",
            "ActiveState",
            "-p",
            "UnitFileState"
        ]
    );
    assert_eq!(Systemctl.arguments(UnitRequest::Stop), ["stop", "facelock-daemon.service"]);
    let done = |success: bool, stdout: &str| Ran::Done {
        success,
        status: "exit status: 1".to_string(),
        stdout: stdout.to_string(),
        stderr: " oops \n".to_string(),
    };
    assert!(Systemctl.run_expect_success(UnitRequest::Start, &done(true, "")).is_ok());
    assert!(matches!(
        Systemctl.run_expect_success(UnitRequest::Start, &done(false, "")),
        Err(LifecycleError::Systemctl { .. })
    ));
    assert!(matches!(
        Systemctl.run_expect_success(UnitRequest::Start, &Ran::NotRun("gone".to_string())),
        Err(LifecycleError::Systemctl { .. })
    ));
    // What was printed counts, whatever the exit status.
    let text = "LoadState=not-found\nActiveState=inactive\nUnitFileState=\n";
    assert_eq!(
        Systemctl.shown_properties(&done(false, text)).unwrap().load_state,
        "not-found"
    );
    match Systemctl.shown_properties(&done(false, "x")) {
        Err(LifecycleError::Systemctl { detail, .. }) => {
            assert!(detail.ends_with("(exit status: 1: oops)"), "{detail}")
        }
        other => panic!("{other:?}"),
    }
}

#[test]
fn identities_are_compared_in_full() {
    assert!(private_empty_file(&private(), (0, 0)));
    assert!(!private_empty_file(&FileIdentity { links: 2, ..private() }, (0, 0)));
    assert!(!private_empty_file(&FileIdentity { mode: 0o640, ..private() }, (0, 0)));
    assert!(open_trusted_dir("/d", &directory(), (0, 0)).is_ok());
    assert!(open_trusted_dir("/d", &FileIdentity { mode: 0o777, ..directory() }, (0, 0)).is_err());
    assert!(open_trusted_dir("/d", &FileIdentity { uid: 5, ..directory() }, (0, 0)).is_err());
    assert!(needs_repair(true, 0o700, 0o755));
    assert!(!needs_repair(true, 0o755, 0o755));
    assert!(!needs_repair(false, 0o700, 0o755));
    assert_eq!(probe_control_path(&layout(), &Opened::Missing), Ok(ControlEntry::Absent));
    assert_eq!(
        remove_barrier("/b", &Ok(private()), &Ok(None)),
        Removal::Gone
    );
    assert!(matches!(
        remove_barrier("/b", &Ok(private()), &Ok(Some(FileIdentity { ino: 8, ..private() }))),
        Removal::Refuse(_)
    ));
    assert!(create_barrier(&layout(), &Created::Occupied).is_err());
}

#[test]
fn the_layout_is_rooted() {
    let l = layout();
    assert_eq!(l.systemd_marker(), "/fixture/run/systemd/system");
    assert_eq!(l.control_dir(), "/fixture/run/systemd/system.control");
    assert_eq!(
        l.barrier_path(),
        "/fixture/run/systemd/system.control/facelock-daemon.service"
    );
    assert_eq!(l.activation_definition_paths().len(), 5);
    assert_eq!(l.expected_owner(), (0, 0));
    assert_eq!(LifecycleLayout::system().systemd_marker(), "/run/systemd/system");
    assert!(l.lock_path().starts_with(&l.lock_dir()));
}

#[test]
fn errors_read_as_sentences() {
    let error = LifecycleError::DaemonNotStopped { state: "active".to_string(), timeout_ms: 1500 };
    let text = error.message();
    assert!(text.contains("active") && text.contains("1.5s"), "{text}");
    assert_eq!(duration_of(50), "50ms");
    assert_eq!(duration_of(2000), "2s");
    assert_eq!(duration_of(1500), "1.5s");
}

#[test]
fn an_unparseable_line_is_quoted() {
    assert_eq!(
        activation_delegates("[D-BUS Service]\nno\tvalue \"here\"\n"),
        Err("unparseable line \"no\\tvalue \\\"here\\\"\"".to_string())
    );
    assert_eq!(
        parse_show_output("a\u{7}\n"),
        Err("unparseable line \"a\\u{7}\"".to_string())
    );
}

#[test]
fn giving_back_runs_in_reverse_order() {
    let staged = Staged {
        adopted: false,
        barrier: true,
        restart: true,
        was_active: true,
        unit_file_state: String::new(),
    };
    assert_eq!(
        restore_steps(&staged, true, RestoreMode::Full),
        [
            RestoreStep::RemoveBarrier,
            RestoreStep::RemoveControlDir,
            RestoreStep::Reload,
            RestoreStep::ProveUnmasked,
            RestoreStep::Start,
            RestoreStep::ReleaseLock,
        ]
    );
    assert_eq!(
        restore_steps(&staged, true, RestoreMode::LeaveBarred),
        [RestoreStep::ReleaseLock]
    );
}
