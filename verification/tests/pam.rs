//! The PAM writer, run against files held in memory.

use std::collections::BTreeMap;

use facelock::pam::alias::{install_for_setup, install_one_in, remove_for_setup, verb_write};
use facelock::pam::apply::{
    add_answered, add_backed_up, add_begin, add_written, insertion_hint, remove_begin,
    remove_closing, remove_written, report_plan, Outcome, Progress, Step,
};
use facelock::pam::edit::{
    dated_provenance_header, has_auth_keyword, has_facelock_line, inserts_before_auth,
    is_facelock_pam_line, provenance_header, with_line_inserted, with_line_removed, PAM_LINE,
};
use facelock::pam::message::{
    preview_route, should_prompt, InsertionHint, Line, PamMessage, Route, Sink,
};
use facelock::pam::phase::{write_phase, Phase};
use facelock::pam::plan::{
    gate_sensitive, is_configured, plan_writes, requested_services, sensitive, service_exists,
    DirProbe, PamAction, PamRequest, Plan, ReadProbe, ServiceFacts, Target, WriteAction,
    WriteRequest, DEFAULT_PAM_SERVICE, SENSITIVE_SERVICES,
};
use facelock::pam::replace::{next_step, owner_differs, temp_name, FileModel, ReplaceStep};
use facelock::pam::report::{
    extension_hint, failure_line, first_existing, first_failure, installed_module_path,
    module_installed, report_json, require_module_installed, run, status_code, status_exit, status_in, status_reports, write_code, Run, ServiceReport,
    PAM_MODULE_PATHS, STATUS_ERROR, STATUS_MISSING, STATUS_PRESENT, WRITE_FAILED, WRITE_OK,
};
use facelock::pam::resolve::{
    backup_path, confined, resolve_in, EntryProbe, Origin, PamDirs, Rejected, PAM_DIR,
};

const SUDO_BEFORE: &str = "#%PAM-1.0\nauth\t\tinclude\t\tsystem-auth\naccount\t\tinclude\t\tsystem-auth\nsession\t\tinclude\t\tsystem-auth\n";
const SUDO_AFTER: &str = "#%PAM-1.0\nauth      sufficient pam_facelock.so\nauth\t\tinclude\t\tsystem-auth\naccount\t\tinclude\t\tsystem-auth\nsession\t\tinclude\t\tsystem-auth\n";
const POLKIT_BEFORE: &str =
    "#%PAM-1.0\naccount\t\tinclude\t\tsystem-auth\npassword\tinclude\t\tsystem-auth\n";
const POLKIT_AFTER: &str = "auth      sufficient pam_facelock.so\n#%PAM-1.0\naccount\t\tinclude\t\tsystem-auth\npassword\tinclude\t\tsystem-auth\n";
const OMARCHY_PRESENT: &str = "#%PAM-1.0\nauth      sufficient pam_facelock.so\nauth\t\tinclude\t\tsystem-auth\naccount\t\tinclude\t\tsystem-auth\n";
const OMARCHY_REMOVED: &str =
    "#%PAM-1.0\nauth\t\tinclude\t\tsystem-auth\naccount\t\tinclude\t\tsystem-auth\n";
const NO_NEWLINE_BEFORE: &str = "#%PAM-1.0\nauth\t\tinclude\t\tsystem-auth";
const NO_NEWLINE_AFTER: &str =
    "#%PAM-1.0\nauth      sufficient pam_facelock.so\nauth\t\tinclude\t\tsystem-auth";

const HEADER: &str = "# header\n";

/// Files by path, links by path, and how many names a file has where not one.
#[derive(Debug, Clone, Default, PartialEq)]
struct Disk {
    files: BTreeMap<String, String>,
    links: BTreeMap<String, String>,
    names: BTreeMap<String, u64>,
    unreadable: BTreeMap<String, String>,
    /// Entries that cannot be examined, each with its error.
    unexamined: BTreeMap<String, String>,
    /// Files that cannot be written, each with its error.
    unwritable: BTreeMap<String, String>,
    refused_dir: Option<(String, String)>,
}

fn disk(files: &[(&str, &str)]) -> Disk {
    Disk {
        files: files.iter().map(|(p, c)| (p.to_string(), c.to_string())).collect(),
        ..Disk::default()
    }
}

fn one() -> PamDirs {
    PamDirs::only("/etc/pam.d")
}

fn two() -> PamDirs {
    PamDirs::new(
        vec!["/etc/pam.d".to_string(), "/usr/lib/pam.d".to_string()],
        &vec![None, None],
    )
}

impl Disk {
    fn facts(&self, dirs: &PamDirs, service: &str) -> ServiceFacts {
        let mut entries = Vec::new();
        for dir in dirs.iter() {
            let path = format!("{dir}/{service}");
            let file = self.links.get(&path).unwrap_or(&path).clone();
            let links = self.names.get(&file).copied().unwrap_or(1);
            entries.push(if self.unexamined.contains_key(&path) {
                EntryProbe::Unexamined
            } else if self.links.contains_key(&path) {
                EntryProbe::Symlink {
                    target: self.files.contains_key(&file).then_some(file.clone()),
                    root: Some(dir.clone()),
                    points_to: Some(file.clone()),
                    links: Some(links),
                }
            } else if self.files.contains_key(&path) || self.unreadable.contains_key(&path) {
                EntryProbe::Plain { links: Some(links) }
            } else {
                EntryProbe::NotFound
            });
        }
        let read = match Target::locate(dirs, service, &entries) {
            Ok(target) => {
                let refused = self.unexamined.get(&target.path);
                match (self.files.get(&target.path), self.unreadable.get(&target.path).or(refused)) {
                    (_, Some(error)) => ReadProbe::Failed(error.clone()),
                    (Some(content), None) => ReadProbe::Content(content.clone()),
                    (None, None) => ReadProbe::NotFound,
                }
            }
            Err(_) => ReadProbe::NotFound,
        };
        let override_dir = match &self.refused_dir {
            Some((dir, error)) => DirProbe::Refused { dir: dir.clone(), error: error.clone() },
            None => DirProbe::Writable,
        };
        ServiceFacts { entries, read, override_dir }
    }

    fn all_facts(&self, dirs: &PamDirs, request: &PamRequest) -> Vec<ServiceFacts> {
        requested_services(&request.services).iter().map(|s| self.facts(dirs, s)).collect()
    }

    fn carry_out(&mut self, step: &Step) -> Result<(), String> {
        if let Step::BackUp { path, content, .. } | Step::Write { path, content, .. } = step {
            if let Some(error) = self.unwritable.get(path) {
                return Err(error.clone());
            }
            self.files.insert(path.clone(), content.clone());
        }
        Ok(())
    }

    fn apply_add(&mut self, target: &Target, sink: &Sink) -> (Vec<Line>, Outcome) {
        let mut lines = Vec::new();
        let mut progress = add_begin(target, sink, false, HEADER);
        loop {
            lines.extend(progress.line.clone());
            let came_to = self.carry_out(&progress.step);
            progress = match &progress.step {
                Step::Confirm => add_answered(target, sink, Ok(true), HEADER),
                Step::BackUp { .. } => add_backed_up(target, sink, came_to, HEADER),
                Step::Write { .. } => add_written(target, sink, came_to),
                Step::Done(outcome) => return (lines, outcome.clone()),
            };
        }
    }

    fn apply_remove(&mut self, target: &Target, sink: &Sink) -> (Vec<Line>, Outcome) {
        let mut lines = Vec::new();
        let mut progress = remove_begin(target, sink);
        loop {
            lines.extend(progress.line.clone());
            let came_to = self.carry_out(&progress.step);
            progress = match &progress.step {
                Step::Write { .. } => remove_written(target, sink, came_to),
                Step::Done(outcome) => {
                    let there = self.files.contains_key(&target.backup);
                    lines.extend(remove_closing(target, sink, there));
                    return (lines, outcome.clone());
                }
                other => panic!("a removal never asks for {other:?}"),
            };
        }
    }

    /// Carries out a write; what is said, and the reports.
    fn carry_out_write(
        &mut self,
        dirs: &PamDirs,
        write: &WriteRequest,
        sink: &Sink,
    ) -> Result<(Vec<Line>, Vec<ServiceReport>), PamMessage> {
        let facts = self.all_facts(dirs, write.request);
        let mut phase = match write_phase(dirs, write, &facts, sink)? {
            Phase::Foreseen(lines, rows) => return Ok((lines, rows)),
            Phase::Writing(phase) => phase,
        };
        let mut lines = Vec::new();
        while let Some(target) = phase.next() {
            let (said, outcome) = match write.action {
                WriteAction::Add => self.apply_add(target, sink),
                WriteAction::Remove => self.apply_remove(target, sink),
            };
            lines.extend(said);
            let there = self.files.contains_key(&target.backup);
            lines.extend(phase.done(outcome, there, sink));
        }
        Ok((lines, phase.into_rows()))
    }

    fn write(
        &mut self,
        dirs: &PamDirs,
        request: &PamRequest,
    ) -> Result<(Vec<Line>, Vec<ServiceReport>), PamMessage> {
        let action = WriteAction::of(request.action).unwrap();
        self.carry_out_write(dirs, &verb_write(action, request), &Sink::verb(request.json))
    }

    /// The files directly in a directory.
    fn snapshot(&self, dir: &str) -> Vec<(String, String)> {
        self.files
            .iter()
            .filter(|(path, _)| path.starts_with(&format!("{dir}/")))
            .map(|(path, content)| (path.clone(), content.clone()))
            .collect()
    }

    fn status(&self, dirs: &PamDirs, request: &PamRequest) -> (Vec<ServiceReport>, i32) {
        let facts = self.all_facts(dirs, request);
        let backups = vec![false; facts.len()];
        let (_, rows, code) = status_in(dirs, request, &facts, &backups);
        (rows, code)
    }
}

fn request(action: PamAction, services: &[&str]) -> PamRequest {
    PamRequest {
        action,
        services: services.iter().map(|s| s.to_string()).collect(),
        no_confirm: true,
        ..PamRequest::default()
    }
}

fn add(services: &[&str]) -> PamRequest {
    request(PamAction::Add, services)
}

fn remove(services: &[&str]) -> PamRequest {
    request(PamAction::Remove, services)
}

fn status(services: &[&str]) -> PamRequest {
    request(PamAction::Status, services)
}

// -- edits ----------------------------------------------------------------

#[test]
fn an_addition_lands_above_the_first_auth_rule_or_at_the_top() {
    for (before, after) in [
        (SUDO_BEFORE, SUDO_AFTER),
        (POLKIT_BEFORE, POLKIT_AFTER),
        (NO_NEWLINE_BEFORE, NO_NEWLINE_AFTER),
    ] {
        let mut d = disk(&[("/etc/pam.d/sudo", before)]);
        let (_, rows) = d.write(&one(), &add(&["sudo"])).unwrap();
        assert_eq!(rows[0].outcome, Outcome::Installed);
        assert_eq!(d.files["/etc/pam.d/sudo"], after);
        assert_eq!(d.files["/etc/pam.d/sudo.facelock-backup"], before);
        assert_eq!(with_line_inserted(before), after);
    }
}

#[test]
fn a_file_that_carries_the_line_is_left_alone_without_a_backup() {
    let mut d = disk(&[("/etc/pam.d/x", OMARCHY_PRESENT)]);
    let before = d.clone();
    let (_, rows) = d.write(&one(), &add(&["x"])).unwrap();
    assert_eq!(rows[0].outcome, Outcome::Unchanged);
    assert_eq!(d, before);
}

#[test]
fn a_removal_takes_the_line_away() {
    let mut d = disk(&[("/etc/pam.d/x", OMARCHY_PRESENT)]);
    let (_, rows) = d.write(&one(), &remove(&["x"])).unwrap();
    assert_eq!(rows[0].outcome, Outcome::Removed);
    assert_eq!(d.files["/etc/pam.d/x"], OMARCHY_REMOVED);
    let (_, rows) = d.write(&one(), &remove(&["x"])).unwrap();
    assert_eq!(rows[0].outcome, Outcome::Unchanged);
}

#[test]
fn adding_then_removing_restores_the_original_bytes() {
    for before in [SUDO_BEFORE, POLKIT_BEFORE, NO_NEWLINE_BEFORE, "", "\n"] {
        assert_eq!(with_line_removed(&with_line_inserted(before)), before, "{before:?}");
    }
}

#[test]
fn removing_twice_is_removing_once() {
    for before in [SUDO_AFTER, POLKIT_AFTER, OMARCHY_PRESENT, "", "a\n\nb"] {
        let once = with_line_removed(before);
        assert_eq!(with_line_removed(&once), once, "{before:?}");
        assert!(!has_facelock_line(&once));
    }
}

#[test]
fn the_status_agrees_with_an_addition() {
    let mut d = disk(&[("/etc/pam.d/sudo", SUDO_BEFORE)]);
    assert_eq!(d.status(&one(), &status(&["sudo"])).1, STATUS_MISSING);
    d.write(&one(), &add(&["sudo"])).unwrap();
    assert_eq!(d.status(&one(), &status(&["sudo"])).1, STATUS_PRESENT);
    d.write(&one(), &remove(&["sudo"])).unwrap();
    assert_eq!(d.status(&one(), &status(&["sudo"])).1, STATUS_MISSING);
}

#[test]
fn lines_are_read_by_their_keyword_and_module() {
    assert!(has_auth_keyword("auth required x"));
    assert!(has_auth_keyword("\tauth\trequired x"));
    assert!(!has_auth_keyword("account required x"));
    assert!(has_facelock_line(SUDO_AFTER));
    assert!(!has_facelock_line(SUDO_BEFORE));
    assert!(inserts_before_auth(SUDO_BEFORE));
    assert!(!inserts_before_auth(POLKIT_BEFORE));
    assert_eq!(insertion_hint(SUDO_BEFORE), InsertionHint::BeforeAuth);
    assert_eq!(insertion_hint(POLKIT_BEFORE), InsertionHint::AtTop);
}

#[test]
fn facelock_line_detection_ignores_spacing_and_comments() {
    assert!(is_facelock_pam_line(PAM_LINE));
    assert!(is_facelock_pam_line("auth  sufficient  pam_facelock.so"));
    assert!(!is_facelock_pam_line("#auth sufficient pam_facelock.so"));
    assert!(!is_facelock_pam_line("auth include system-login"));
}

#[test]
fn a_copy_says_where_it_comes_from() {
    assert_eq!(
        dated_provenance_header("/usr/lib/pam.d/x", "1.2.3", "2026-01-02"),
        "# Copied from /usr/lib/pam.d/x by facelock 1.2.3 on 2026-01-02.\n# This local override shadows the vendor file and will not track vendor updates.\n"
    );
    let today = provenance_header("/v", "9");
    assert!(today.starts_with("# Copied from /v by facelock 9 on "));
    // A year, a month and a day.
    let day = today.split(" on ").nth(1).unwrap().split(".\n").next().unwrap();
    assert_eq!(day.split('-').count(), 3);
}

// -- names ----------------------------------------------------------------

#[test]
fn one_path_component_is_the_whole_rule() {
    for good in ["sudo", "polkit-1", "omarchy-lock-face", "..x", "a\"b"] {
        assert!(confined(good).is_ok(), "{good} must be accepted");
    }
    for bad in [
        "",
        ".",
        "..",
        "/",
        "/etc/shadow",
        "../shadow",
        "a/b",
        "sudo/",
        "./sudo",
        "sudo\0",
    ] {
        assert!(confined(bad).is_err(), "{bad:?} must be rejected");
    }
}

#[test]
fn a_rejected_name_stops_the_whole_run() {
    for bad in ["/etc/shadow", "../shadow"] {
        let mut d = disk(&[("/etc/pam.d/sudo", SUDO_BEFORE)]);
        let before = d.clone();
        assert_eq!(
            d.write(&one(), &add(&["sudo", bad])).unwrap_err(),
            PamMessage::PamInvalidServiceName { service: bad.to_string() }
        );
        assert_eq!(d, before);
    }
}

#[test]
fn no_service_means_sudo_and_duplicates_collapse() {
    assert_eq!(requested_services(&vec![]), [DEFAULT_PAM_SERVICE]);
    assert_eq!(
        requested_services(&vec!["sudo".into(), "polkit-1".into(), "sudo".into()]),
        ["sudo", "polkit-1"]
    );
}

#[test]
fn several_services_are_written_in_one_run() {
    let mut d = disk(&[("/etc/pam.d/sudo", SUDO_BEFORE), ("/etc/pam.d/polkit-1", POLKIT_BEFORE)]);
    let (_, rows) = d.write(&one(), &add(&["sudo", "polkit-1"])).unwrap();
    assert_eq!(rows.len(), 2);
    assert_eq!(d.files["/etc/pam.d/sudo"], SUDO_AFTER);
    assert_eq!(d.files["/etc/pam.d/polkit-1"], POLKIT_AFTER);
    assert_eq!(write_code(&rows), WRITE_OK);
}

// -- sensitive services ---------------------------------------------------

#[test]
fn sensitive_services_cover_every_distributions_shared_stack() {
    for shared in [
        "system-auth",
        "system-auth-ac",
        "password-auth",
        "password-auth-ac",
        "common-auth",
        "system-login",
    ] {
        assert!(
            SENSITIVE_SERVICES.contains(&shared),
            "{shared} is a shared auth stack and must be gated"
        );
    }
    assert!(SENSITIVE_SERVICES.contains(&"login"));
    assert!(SENSITIVE_SERVICES.contains(&"sshd"));
    assert!(!SENSITIVE_SERVICES.contains(&"sudo"));
    assert!(!SENSITIVE_SERVICES.contains(&"polkit-1"));
    assert!(sensitive("sshd") && !sensitive("sudo"));
}

#[test]
fn only_its_flag_unlocks_a_sensitive_service() {
    let mut d = disk(&[("/etc/pam.d/system-auth", SUDO_BEFORE)]);
    let before = d.clone();
    assert_eq!(
        d.write(&one(), &add(&["system-auth"])).unwrap_err(),
        PamMessage::PamSensitiveRefused {
            service: "system-auth".to_string(),
            remedy: "--allow-sensitive".to_string(),
        }
    );
    assert_eq!(d, before);

    let allowed = PamRequest { allow_sensitive: true, ..add(&["system-auth"]) };
    d.write(&one(), &allowed).unwrap();
    assert_eq!(d.files["/etc/pam.d/system-auth"], SUDO_AFTER);

    // Taking the line away is never refused.
    d.write(&one(), &remove(&["system-auth"])).unwrap();
    assert_eq!(d.files["/etc/pam.d/system-auth"], SUDO_BEFORE);
}

#[test]
fn a_link_to_a_sensitive_file_is_gated_under_any_name() {
    let mut d = disk(&[("/etc/pam.d/system-auth", SUDO_BEFORE)]);
    d.links.insert("/etc/pam.d/alias".into(), "/etc/pam.d/system-auth".into());
    assert!(matches!(
        d.write(&one(), &add(&["alias"])),
        Err(PamMessage::PamSensitiveRefused { .. })
    ));
    assert!(d.write(&one(), &remove(&["alias"])).is_ok());
}

#[test]
fn the_gate_reads_the_write() {
    let allowed = PamRequest { allow_sensitive: true, ..add(&[]) };
    assert!(gate_sensitive("sshd", &verb_write(WriteAction::Add, &allowed)).is_ok());
    let plain = add(&[]);
    assert!(gate_sensitive("sshd", &verb_write(WriteAction::Add, &plain)).is_err());
    assert!(gate_sensitive("sshd", &verb_write(WriteAction::Remove, &plain)).is_ok());
    assert!(gate_sensitive("sudo", &verb_write(WriteAction::Add, &plain)).is_ok());
}

// -- absence --------------------------------------------------------------

#[test]
fn if_present_forgives_absence_and_nothing_else() {
    for verb in [PamAction::Add, PamAction::Remove] {
        let mut d = disk(&[]);
        let asked = PamRequest { if_present: true, ..request(verb, &["sudo"]) };
        let (_, rows) = d.write(&one(), &asked).unwrap();
        assert_eq!(rows[0].outcome, Outcome::Absent);
        assert!(matches!(
            d.write(&one(), &request(verb, &["sudo"])),
            Err(PamMessage::PamFileNotFound { .. })
        ));

        d.unreadable.insert("/etc/pam.d/sudo".into(), "denied".into());
        assert_eq!(
            d.write(&one(), &asked).unwrap_err(),
            PamMessage::PamReadFailed {
                path: "/etc/pam.d/sudo".to_string(),
                error: "denied".to_string(),
            }
        );
    }
}

#[test]
fn an_absent_service_names_every_directory_searched() {
    let error = disk(&[]).write(&two(), &add(&["polkit-1"])).unwrap_err();
    match error {
        PamMessage::PamFileNotFound { paths } => {
            for path in ["/etc/pam.d/polkit-1", "/usr/lib/pam.d/polkit-1"] {
                assert!(paths.contains(path), "the refusal must name {path}: {paths}");
            }
        }
        other => panic!("got: {other:?}"),
    }
}

#[test]
fn status_on_an_absent_service_names_every_directory_searched() {
    let d = disk(&[]);
    let dirs = two();
    let facts = d.facts(&dirs, "polkit-1");
    let target = Target::locate(&dirs, "polkit-1", &facts.entries).unwrap();
    assert!(!target.is_present());
    let tried = target.tried_paths();
    for path in ["/etc/pam.d/polkit-1", "/usr/lib/pam.d/polkit-1"] {
        assert!(tried.contains(path), "{path} unnamed: {tried}");
    }

    let (_, reports) = status_reports(
        &dirs,
        &vec!["polkit-1".to_string()],
        &vec![facts],
        &vec![false],
        &Sink::verb(true),
    );
    assert_eq!(reports[0].outcome, Outcome::Absent);
    assert_eq!(
        reports[0].path.as_deref(),
        Some("/etc/pam.d/polkit-1"),
        "the machine field is one path: where an override would go"
    );
}

// -- dry run --------------------------------------------------------------

#[test]
fn a_dry_run_writes_nothing() {
    let mut d = disk(&[("/etc/pam.d/sudo", SUDO_BEFORE)]);
    let before = d.clone();
    let asked = PamRequest { dry_run: true, ..add(&["sudo"]) };
    let (lines, rows) = d.write(&one(), &asked).unwrap();
    assert_eq!(d, before);
    assert_eq!(rows[0].outcome, Outcome::Installed);
    assert_eq!(rows[0].backup, None);
    assert_eq!(
        lines[0].message,
        PamMessage::PamPlanAdd {
            path: "/etc/pam.d/sudo".to_string(),
            hint: InsertionHint::BeforeAuth,
        }
    );
}

#[test]
fn dry_run_reports_the_action_it_would_take() {
    let d = disk(&[
        ("/etc/pam.d/sudo", SUDO_BEFORE),
        ("/etc/pam.d/omarchy-lock-face", OMARCHY_PRESENT),
    ]);
    let request = PamRequest {
        dry_run: true,
        json: true,
        ..add(&["sudo", "omarchy-lock-face"])
    };
    let write = WriteRequest {
        action: WriteAction::Add,
        request: &request,
        remedy: "--x",
    };
    let targets = plan_writes(&one(), &write, &d.all_facts(&one(), &request)).unwrap();

    let sink = Sink::verb(true);
    let words: Vec<&str> = targets
        .iter()
        .map(|t| report_plan(t, WriteAction::Add, &sink).1.word())
        .collect();

    assert_eq!(words, ["installed", "unchanged"]);
}

// -- status ---------------------------------------------------------------

#[test]
fn the_status_code_is_that_of_the_worst_service() {
    let mut d = disk(&[("/etc/pam.d/a", OMARCHY_PRESENT), ("/etc/pam.d/b", SUDO_BEFORE)]);
    assert_eq!(d.status(&one(), &status(&["a"])).1, STATUS_PRESENT);
    assert_eq!(d.status(&one(), &status(&["a", "b"])).1, STATUS_MISSING);
    assert_eq!(d.status(&one(), &status(&["a", "b", "gone"])).1, STATUS_ERROR);
    let forgiving = PamRequest { if_present: true, ..status(&["a", "gone"]) };
    assert_eq!(d.status(&one(), &forgiving).1, STATUS_PRESENT);
    d.unreadable.insert("/etc/pam.d/c".into(), "denied".into());
    let (rows, code) = d.status(&one(), &PamRequest { if_present: true, ..status(&["c"]) });
    assert_eq!(rows[0].outcome, Outcome::Unknown("denied".to_string()));
    assert_eq!(code, STATUS_ERROR);
    assert_eq!(status_code(&Outcome::Absent, true), STATUS_PRESENT);
    assert_eq!(status_exit(&vec![], false), STATUS_PRESENT);
}

#[test]
fn json_document_shape_is_the_contract() {
    let reports = vec![ServiceReport {
        service: "sudo".into(),
        path: Some("/etc/pam.d/sudo".into()),
        outcome: Outcome::Installed,
        backup: Some("/etc/pam.d/sudo.facelock-backup".into()),
    }];
    let value: serde_json::Value =
        serde_json::from_str(&report_json(PamAction::Add, false, &reports, None)).unwrap();

    assert_eq!(value["command"], "add");
    assert_eq!(value["dry_run"], false);
    assert_eq!(value["services"][0]["service"], "sudo");
    assert_eq!(value["services"][0]["path"], "/etc/pam.d/sudo");
    assert_eq!(value["services"][0]["action"], "installed");
    assert_eq!(
        value["services"][0]["backup"],
        "/etc/pam.d/sudo.facelock-backup"
    );
    assert!(value["services"][0].get("error").is_none());
}

#[test]
fn json_carries_the_error_only_when_there_is_one() {
    let reports = vec![
        ServiceReport {
            service: "sudo".into(),
            path: Some("/etc/pam.d/sudo".into()),
            outcome: Outcome::Failed("disk full".into()),
            backup: None,
        },
        ServiceReport {
            service: "polkit-1".into(),
            path: Some("/etc/pam.d/polkit-1".into()),
            outcome: Outcome::Unchanged,
            backup: None,
        },
    ];
    let value: serde_json::Value =
        serde_json::from_str(&report_json(PamAction::Add, false, &reports, None)).unwrap();

    assert_eq!(value["services"][0]["action"], "failed");
    assert_eq!(value["services"][0]["error"], "disk full");
    assert_eq!(value["services"][0]["backup"], serde_json::Value::Null);
    assert!(value["services"][1].get("error").is_none());
    assert_eq!(write_code(&reports), WRITE_FAILED);
    assert_eq!(first_failure(&reports), Err("disk full".to_string()));
}

#[test]
fn a_rejected_name_reports_a_locale_independent_reason() {
    let dirs = one();
    let d = disk(&[]);
    let (_, reports) = status_reports(
        &dirs,
        &vec!["../escape".to_string()],
        &vec![d.facts(&dirs, "../escape")],
        &vec![true],
        &Sink::verb(true),
    );

    assert_eq!(
        reports[0].outcome,
        Outcome::Unknown("invalid service name".to_string())
    );
    let value: serde_json::Value =
        serde_json::from_str(&report_json(PamAction::Status, false, &reports, None)).unwrap();
    assert_eq!(value["services"][0]["error"], "invalid service name");
    assert_eq!(value["services"][0]["action"], "unknown");
    assert_eq!(reports[0].backup, None);
}

#[test]
fn json_escapes_a_service_name_containing_a_quote() {
    let reports = vec![ServiceReport {
        service: "a\"b".into(),
        path: Some("/etc/pam.d/a\"b".into()),
        outcome: Outcome::Missing,
        backup: None,
    }];
    let rendered = report_json(PamAction::Status, false, &reports, None);
    let value: serde_json::Value = serde_json::from_str(&rendered).unwrap();

    assert_eq!(value["services"][0]["service"], "a\"b");
}

#[test]
fn outcome_vocabulary_is_pinned() {
    let words: Vec<&str> = [
        Outcome::Installed,
        Outcome::Overridden,
        Outcome::VendorOnly,
        Outcome::Removed,
        Outcome::Unchanged,
        Outcome::Absent,
        Outcome::Declined,
        Outcome::Failed(String::new()),
        Outcome::Present,
        Outcome::Missing,
        Outcome::Unknown(String::new()),
    ]
    .iter()
    .map(Outcome::word)
    .collect();

    assert_eq!(
        words,
        [
            "installed",
            "overridden",
            "vendor-only",
            "removed",
            "unchanged",
            "absent",
            "declined",
            "failed",
            "present",
            "missing",
            "unknown",
        ]
    );
}

#[test]
fn status_json_carries_the_module_path_and_the_write_verbs_do_not() {
    let rows = vec![ServiceReport {
        service: "sudo".to_string(),
        path: Some("/etc/pam.d/sudo".to_string()),
        outcome: Outcome::Present,
        backup: None,
    }];

    for (found, expected) in [
        (None, serde_json::Value::Null),
        (
            installed_module_path(&vec![false, true, true]),
            serde_json::Value::String("/usr/lib/security/pam_facelock.so".to_string()),
        ),
    ] {
        let status: serde_json::Value =
            serde_json::from_str(&report_json(PamAction::Status, false, &rows, found)).unwrap();
        assert!(
            status.get("module_path").is_some(),
            "the key is always present on status, null when nothing hit"
        );
        assert_eq!(status["module_path"], expected);

        for action in [PamAction::Add, PamAction::Remove] {
            let document: serde_json::Value =
                serde_json::from_str(&report_json(action, false, &rows, found)).unwrap();
            assert!(document.get("module_path").is_none(), "{action:?}");
        }
    }
}

// -- prompts and streams --------------------------------------------------

#[test]
fn a_prompt_is_asked_only_when_both_streams_are_a_terminal() {
    for (no_confirm, stdin_tty, stderr_tty, expected) in [
        (false, true, true, true),
        (false, true, false, false),
        (false, false, true, false),
        (false, false, false, false),
        // `--no-confirm` answers before either stream is consulted.
        (true, true, true, false),
        (true, true, false, false),
        (true, false, true, false),
        (true, false, false, false),
    ] {
        assert_eq!(
            should_prompt(no_confirm, stdin_tty, stderr_tty),
            expected,
            "no_confirm={no_confirm} stdin_tty={stdin_tty} stderr_tty={stderr_tty}"
        );
    }
}

#[test]
fn a_prompt_that_will_be_asked_keeps_its_context() {
    // Nobody is being asked: ordinary progress, suppressible.
    assert_eq!(preview_route(false, false), Route::Info);
    assert_eq!(preview_route(true, false), Route::Dropped);

    // Being asked: stdout in human mode, which `--quiet` does not reach,
    // stderr under `--json`, where the prompt itself is and where stdout is
    // holding a document.
    assert_eq!(preview_route(false, true), Route::Notice);
    assert_eq!(preview_route(true, true), Route::Error);
}

#[test]
fn the_streams_follow_the_document() {
    assert_eq!(Sink::verb(true).info_route(), Route::Dropped);
    assert_eq!(Sink::verb(false).info_route(), Route::Info);
    assert_eq!(Sink::verb(false).notice_route(), Route::Notice);
    assert_eq!(Sink::human().info_route(), Route::Info);
    assert_eq!(extension_hint(&Sink::verb(true)).route, Route::Dropped);
}

#[test]
fn an_answer_of_no_writes_nothing() {
    let d = disk(&[("/etc/pam.d/sudo", SUDO_BEFORE)]);
    let asked = PamRequest { no_confirm: false, ..add(&["sudo"]) };
    let write = verb_write(WriteAction::Add, &asked);
    let targets = plan_writes(&one(), &write, &d.all_facts(&one(), &asked)).unwrap();
    let sink = Sink::verb(false);
    let begun = add_begin(&targets[0], &sink, true, HEADER);
    assert_eq!(begun.step, Step::Confirm);
    assert!(matches!(
        begun.line,
        Some(Line { route: Route::Notice, message: PamMessage::PamModifyPreview { .. } })
    ));
    let declined = add_answered(&targets[0], &sink, Ok(false), HEADER);
    assert_eq!(declined.step, Step::Done(Outcome::Declined));
    let broken = add_answered(&targets[0], &sink, Err("no tty".to_string()), HEADER);
    assert_eq!(broken.step, Step::Done(Outcome::Failed("failed to read confirmation: no tty".to_string())));
}

#[test]
fn a_failed_write_is_reported_once() {
    let d = disk(&[("/etc/pam.d/sudo", SUDO_BEFORE)]);
    let asked = add(&["sudo"]);
    let write = verb_write(WriteAction::Add, &asked);
    let targets = plan_writes(&one(), &write, &d.all_facts(&one(), &asked)).unwrap();
    let sink = Sink::verb(true);
    let Progress { step, .. } = add_written(&targets[0], &sink, Err("full".to_string()));
    let Step::Done(outcome) = step else {
        panic!("a failed write is the end");
    };
    assert!(matches!(outcome, Outcome::Failed(_)));
    assert!(matches!(
        failure_line(&targets[0], &outcome, &sink),
        Some(Line { route: Route::Error, message: PamMessage::PamConfigureFailed { .. } })
    ));
    assert!(failure_line(&targets[0], &outcome, &Sink::human()).is_none());
}

// -- links ----------------------------------------------------------------

#[test]
fn a_link_out_of_the_directory_is_refused() {
    let mut d = disk(&[("/etc/shadow", SUDO_BEFORE), ("/etc/pam.d/sudo", SUDO_BEFORE)]);
    d.links.insert("/etc/pam.d/evil".into(), "/etc/shadow".into());
    let before = d.clone();
    assert!(matches!(
        d.write(&one(), &add(&["sudo", "evil"])),
        Err(PamMessage::PamServiceSymlinkedOutside { .. })
    ));
    assert_eq!(d, before);
    let (rows, code) = d.status(&one(), &status(&["evil"]));
    assert!(matches!(rows[0].outcome, Outcome::Unknown(_)));
    assert_eq!(code, STATUS_ERROR);
}

#[test]
fn a_link_inside_the_directory_is_followed() {
    let mut d = disk(&[("/etc/pam.d/real", SUDO_BEFORE)]);
    d.links.insert("/etc/pam.d/alias".into(), "/etc/pam.d/real".into());
    d.write(&one(), &add(&["alias"])).unwrap();
    assert_eq!(d.files["/etc/pam.d/real"], SUDO_AFTER);
}

#[test]
fn a_file_with_two_names_is_refused() {
    let mut d = disk(&[("/etc/pam.d/sudo", SUDO_BEFORE)]);
    d.names.insert("/etc/pam.d/sudo".into(), 2);
    assert_eq!(
        d.write(&one(), &add(&["sudo"])).unwrap_err(),
        PamMessage::PamServiceHardLinked { path: "/etc/pam.d/sudo".to_string(), links: 2 }
    );
}

#[test]
fn a_rejection_has_a_reason_and_a_place() {
    let rejected = Rejected::HardLinked { link: "/etc/pam.d/x".to_string(), links: 3 };
    assert_eq!(rejected.link(), Some("/etc/pam.d/x"));
    assert!(!rejected.reason().is_empty());
    assert_eq!(Rejected::<String>::Name.link(), None);
    let probe = EntryProbe::Unexamined;
    assert!(resolve_in("/etc/pam.d", "/etc/pam.d/x", &probe).is_some());
    assert!(resolve_in("/etc/pam.d", "/etc/pam.d/x", &EntryProbe::NotFound).is_none());
}

// -- the search path ------------------------------------------------------

#[test]
fn a_relative_config_dir_falls_back_to_the_default_list() {
    for list in [
        vec!["pam.d".to_string()],
        vec!["/etc/pam.d".to_string(), "vendor/pam.d".to_string()],
    ] {
        let canonical = vec![None; list.len()];
        assert_eq!(
            PamDirs::new(list.clone(), &canonical),
            PamDirs::default(),
            "{list:?} must not be used as a search path"
        );
    }

    let ab = || vec!["/a".to_string(), "/b".to_string()];
    assert_eq!(
        PamDirs::new(ab(), &vec![None, None]),
        PamDirs::new(ab(), &vec![None, None]),
        "an absolute list is taken as written"
    );
    assert_eq!(PamDirs::new(vec!["/a".to_string()], &vec![None]).overrides(), "/a");
}

#[test]
fn the_write_target_is_the_first_directory() {
    assert_eq!(PamDirs::default().overrides(), PAM_DIR);
    assert_eq!(
        PamDirs::default(),
        PamDirs::new(Vec::new(), &Vec::new()),
        "an empty list is a mistake, not a request to disable the writer"
    );
    assert_eq!(
        *PamDirs::default().iter(),
        ["/etc/pam.d", "/usr/lib/pam.d"],
        "Linux-PAM's own precedence: /etc first, the vendor directory second"
    );
    assert_eq!(PamDirs::default().display(), "/etc/pam.d, /usr/lib/pam.d");
}

#[test]
fn an_override_directory_under_another_name_is_no_search_path() {
    let list = vec!["/etc/pam.d".to_string(), "/alias".to_string()];
    let canonical = vec![None, Some("/etc/pam.d/".to_string())];
    assert_eq!(PamDirs::new(list, &canonical), PamDirs::default());
}

#[test]
fn a_vendor_file_is_copied_never_edited() {
    let mut d = disk(&[("/usr/lib/pam.d/polkit-1", SUDO_BEFORE)]);
    assert!(service_exists(&two(), "polkit-1", &d.facts(&two(), "polkit-1").entries));
    let (rows, code) = d.status(&two(), &status(&["polkit-1"]));
    assert_eq!(rows[0].outcome, Outcome::VendorOnly);
    assert_eq!(code, STATUS_MISSING);

    let (_, rows) = d.write(&two(), &remove(&["polkit-1"])).unwrap();
    assert_eq!(rows[0].outcome, Outcome::VendorOnly);

    let (_, rows) = d.write(&two(), &add(&["polkit-1"])).unwrap();
    assert_eq!(rows[0].outcome, Outcome::Overridden);
    assert_eq!(rows[0].backup, None);
    assert_eq!(d.files["/usr/lib/pam.d/polkit-1"], SUDO_BEFORE);
    assert_eq!(d.files["/etc/pam.d/polkit-1"], format!("{HEADER}{SUDO_AFTER}"));
    assert!(is_configured(&two(), "polkit-1", &d.facts(&two(), "polkit-1")));

    // The override answers from now on, and is edited in place.
    let (_, rows) = d.write(&two(), &add(&["polkit-1"])).unwrap();
    assert_eq!(rows[0].outcome, Outcome::Unchanged);
    let (_, rows) = d.write(&two(), &remove(&["polkit-1"])).unwrap();
    assert_eq!(rows[0].outcome, Outcome::Removed);
    assert_eq!(d.files["/etc/pam.d/polkit-1"], format!("{HEADER}{SUDO_BEFORE}"));
}

#[test]
fn an_unwritable_override_directory_is_refused_before_any_write() {
    let mut d = disk(&[("/usr/lib/pam.d/polkit-1", SUDO_BEFORE)]);
    d.refused_dir = Some(("/etc/pam.d".to_string(), "read-only".to_string()));
    assert_eq!(
        d.write(&two(), &add(&["polkit-1"])).unwrap_err(),
        PamMessage::PamOverrideDirUnwritable {
            dir: "/etc/pam.d".to_string(),
            path: "/etc/pam.d/polkit-1".to_string(),
            error: "read-only".to_string(),
        }
    );
}

#[test]
fn a_target_knows_its_paths() {
    let d = disk(&[("/usr/lib/pam.d/x", SUDO_BEFORE)]);
    let target = Target::locate(&two(), "x", &d.facts(&two(), "x").entries).unwrap();
    assert_eq!(target.path_string(), "/usr/lib/pam.d/x");
    assert_eq!(target.write_path(), "/etc/pam.d/x");
    assert_eq!(target.backup_string(), "/etc/pam.d/x.facelock-backup");
    assert_eq!(
        target.origin,
        Origin::Vendor { override_path: "/etc/pam.d/x".to_string() }
    );
    assert_eq!(target.plan, Plan::NoChange);
    assert_eq!(backup_path("/a"), "/a.facelock-backup");
}

// -- the module -----------------------------------------------------------

#[test]
fn the_module_refusal_names_every_candidate() {
    match require_module_installed(&vec![false, false, false]) {
        Err(PamMessage::PamModuleNotInstalled { paths, path }) => {
            assert_eq!(paths, PAM_MODULE_PATHS.join(", "));
            assert_eq!(path, PAM_MODULE_PATHS[0]);
            for candidate in PAM_MODULE_PATHS {
                assert!(paths.contains(candidate), "{candidate} unnamed: {paths}");
            }
        }
        other => panic!("got: {other:?}"),
    }
}

#[test]
fn the_module_probe_order_is_the_contract() {
    assert_eq!(
        PAM_MODULE_PATHS,
        [
            "/lib/security/pam_facelock.so",
            "/usr/lib/security/pam_facelock.so",
            "/usr/lib64/security/pam_facelock.so",
        ]
    );
    assert_eq!(first_existing(&["/a", "/b"], &vec![false, true]), Some("/b"));
    assert_eq!(first_existing(&["/a", "/b"], &vec![true, true]), Some("/a"));
    assert!(module_installed(&vec![false, false, true]));
    assert!(!module_installed(&vec![false, false, false]));
}

#[test]
fn setup_alias_refuses_without_root() {
    let installing = PamRequest { allow_sensitive: true, ..add(&["sudo"]) };
    let removing = PamRequest { if_present: true, ..remove(&["sudo"]) };
    for error in [
        install_for_setup(&installing, false, &vec![false; 3]).err().unwrap(),
        remove_for_setup(&removing, false).err().unwrap(),
    ] {
        assert!(
            matches!(error, PamMessage::PamRootRequired { .. }),
            "expected the root refusal before any other check, got: {error:?}"
        );
    }
    assert!(install_for_setup(&installing, true, &vec![true; 3]).is_ok());
    assert!(remove_for_setup(&removing, true).is_ok());
    assert_eq!(install_one_in(&installing).action, WriteAction::Add);
}

#[test]
fn a_write_needs_root_and_an_addition_the_module() {
    let there = vec![true, false, false];
    assert!(matches!(run(&status(&[]), false, &vec![false; 3]), Ok(Run::Status)));
    assert_eq!(
        run(&remove(&[]), false, &there).err(),
        Some(PamMessage::PamRootRequired { command: "sudo facelock pam remove".to_string() })
    );
    assert!(matches!(
        run(&add(&[]), true, &vec![false; 3]),
        Err(PamMessage::PamModuleNotInstalled { .. })
    ));
    assert!(matches!(run(&add(&[]), true, &there), Ok(Run::Write(WriteAction::Add))));
    // Removal works without the module.
    assert!(matches!(
        run(&remove(&[]), true, &vec![false; 3]),
        Ok(Run::Write(WriteAction::Remove))
    ));
}

// -- replacing a file -----------------------------------------------------

fn replace(fails_at: Option<ReplaceStep>, differs: bool) -> Vec<ReplaceStep> {
    let mut steps = vec![ReplaceStep::Create];
    loop {
        let step = *steps.last().unwrap();
        if step == ReplaceStep::Replaced || step == ReplaceStep::Failed {
            return steps;
        }
        steps.push(next_step(step, fails_at != Some(step), differs));
    }
}

#[test]
fn a_replacement_takes_the_name_last() {
    assert_eq!(
        replace(None, true),
        [
            ReplaceStep::Create,
            ReplaceStep::Write,
            ReplaceStep::SetMode,
            ReplaceStep::Inspect,
            ReplaceStep::Chown,
            ReplaceStep::Label,
            ReplaceStep::Sync,
            ReplaceStep::Rename,
            ReplaceStep::SyncDirectory,
            ReplaceStep::Replaced,
        ]
    );
    assert!(!replace(None, false).contains(&ReplaceStep::Chown));
    // The label and the directory are best effort.
    assert!(replace(Some(ReplaceStep::Label), false).ends_with(&[ReplaceStep::Replaced]));
    assert!(replace(Some(ReplaceStep::SyncDirectory), false).ends_with(&[ReplaceStep::Replaced]));
}

#[test]
fn a_failed_replacement_removes_the_new_file() {
    for step in [
        ReplaceStep::Create,
        ReplaceStep::Write,
        ReplaceStep::SetMode,
        ReplaceStep::Inspect,
        ReplaceStep::Chown,
        ReplaceStep::Sync,
        ReplaceStep::Rename,
    ] {
        assert!(
            replace(Some(step), true)
                .ends_with(&[step, ReplaceStep::RemoveTemporary, ReplaceStep::Failed]),
            "{step:?}"
        );
    }
    assert_eq!(temp_name("sudo", 42, "17"), ".sudo.facelock-42-17");
    let root = FileModel { mode: 0o644, uid: 0, gid: 0 };
    assert!(!owner_differs(&root, &FileModel { mode: 0, ..root }));
    assert!(owner_differs(&root, &FileModel { gid: 1, ..root }));
}

// -- the setup alias ------------------------------------------------------

#[test]
fn the_setup_alias_writes_the_same_bytes_as_the_verb() {
    for (service, before, after) in [
        ("sudo", SUDO_BEFORE, SUDO_AFTER),
        ("polkit-1", POLKIT_BEFORE, POLKIT_AFTER),
        ("omarchy-lock-face", OMARCHY_PRESENT, OMARCHY_PRESENT),
        ("sudo", NO_NEWLINE_BEFORE, NO_NEWLINE_AFTER),
    ] {
        let path = format!("/etc/pam.d/{service}");
        let request = PamRequest { allow_sensitive: true, ..add(&[service]) };
        let mut via_alias = disk(&[(&path, before)]);
        via_alias.carry_out_write(&one(), &install_one_in(&request), &Sink::human()).unwrap();

        let mut via_verb = disk(&[(&path, before)]);
        via_verb.write(&one(), &add(&[service])).unwrap();

        assert_eq!(via_alias.files[&path], after, "{service} via the alias");
        assert_eq!(
            via_alias, via_verb,
            "{service}: the alias and the verb must leave the same directory"
        );
    }
}

// -- the flag split -------------------------------------------------------

#[test]
fn no_confirm_does_not_unlock_a_sensitive_service() {
    for service in SENSITIVE_SERVICES {
        let mut d = disk(&[(&format!("/etc/pam.d/{service}"), SUDO_BEFORE)]);
        let before = d.clone();
        assert_eq!(
            d.write(&one(), &add(&[service])).unwrap_err(),
            PamMessage::PamSensitiveRefused {
                service: service.to_string(),
                remedy: "--allow-sensitive".to_string(),
            }
        );
        assert_eq!(before, d);
    }
}

// -- vendor directories ---------------------------------------------------

#[test]
fn a_vendor_file_that_carries_the_line_is_present() {
    let mut d = disk(&[("/usr/lib/pam.d/omarchy-lock-face", OMARCHY_PRESENT)]);
    let (rows, _) = d.status(&two(), &status(&["omarchy-lock-face"]));
    assert_eq!(rows[0].outcome, Outcome::Present);
    let facts = d.facts(&two(), "omarchy-lock-face");
    assert!(is_configured(&two(), "omarchy-lock-face", &facts));

    // An override would add nothing, so none is written.
    let (_, rows) = d.write(&two(), &add(&["omarchy-lock-face"])).unwrap();
    assert_eq!(write_code(&rows), WRITE_OK);
    assert!(d.snapshot("/etc/pam.d").is_empty());
}

#[test]
fn the_first_directory_holding_the_name_answers() {
    let d = disk(&[("/etc/pam.d/sudo", SUDO_BEFORE), ("/usr/lib/pam.d/sudo", OMARCHY_PRESENT)]);
    let target = Target::locate(&two(), "sudo", &d.facts(&two(), "sudo").entries).unwrap();
    assert_eq!(target.path, "/etc/pam.d/sudo");
    assert_eq!(target.origin, Origin::Local);
    assert_eq!(target.write_path(), "/etc/pam.d/sudo");
}

#[test]
fn an_etc_entry_symlinked_into_a_vendor_directory_is_refused() {
    let mut d = disk(&[("/usr/lib/pam.d/polkit-1", POLKIT_BEFORE)]);
    d.links.insert("/etc/pam.d/polkit-1".into(), "/usr/lib/pam.d/polkit-1".into());
    let before = d.clone();
    match d.write(&two(), &add(&["polkit-1"])).unwrap_err() {
        PamMessage::PamServiceSymlinkedOutside { target, dir, .. } => {
            assert_eq!(target, "/usr/lib/pam.d/polkit-1");
            assert_eq!(dir, "/etc/pam.d", "the refusal names the directory that was violated");
        }
        other => panic!("got: {other:?}"),
    }
    assert_eq!(before, d);
    assert!(!d.files.contains_key(&backup_path("/usr/lib/pam.d/polkit-1")));
}

#[test]
fn the_sensitive_gate_reaches_a_vendor_file() {
    let mut d = disk(&[("/usr/lib/pam.d/system-auth", SUDO_BEFORE)]);
    d.links.insert("/usr/lib/pam.d/harmless".into(), "/usr/lib/pam.d/system-auth".into());
    for service in ["system-auth", "harmless"] {
        let error = d.write(&two(), &add(&[service])).unwrap_err();
        assert!(
            matches!(error, PamMessage::PamSensitiveRefused { .. }),
            "{service}: got {error:?}"
        );
    }
    assert!(d.snapshot("/etc/pam.d").is_empty(), "a refusal writes nothing");
}

#[test]
fn dry_run_on_a_vendor_only_service_writes_nothing() {
    let mut d = disk(&[("/usr/lib/pam.d/polkit-1", POLKIT_BEFORE)]);
    let before = d.clone();
    let request = PamRequest { dry_run: true, ..add(&["polkit-1"]) };
    let (_, rows) = d.write(&two(), &request).unwrap();
    assert_eq!(rows[0].outcome, Outcome::Overridden);
    assert!(d.snapshot("/etc/pam.d").is_empty());
    assert_eq!(before, d);
}

#[test]
fn an_override_reports_no_backup_even_when_a_stale_one_exists() {
    let mut d = disk(&[
        ("/usr/lib/pam.d/polkit-1", POLKIT_BEFORE),
        ("/etc/pam.d/polkit-1.facelock-backup", SUDO_BEFORE),
    ]);
    let (_, rows) = d.write(&two(), &add(&["polkit-1"])).unwrap();
    assert_eq!(rows[0].outcome, Outcome::Overridden);
    assert_eq!(rows[0].backup, None);
    assert_eq!(
        d.files["/etc/pam.d/polkit-1.facelock-backup"], SUDO_BEFORE,
        "and the stale file is left exactly as it was found"
    );
}

#[test]
fn an_unreadable_first_directory_is_not_an_absence() {
    let mut d = disk(&[
        ("/etc/pam.d/polkit-1", OMARCHY_PRESENT),
        ("/usr/lib/pam.d/polkit-1", POLKIT_BEFORE),
    ]);
    d.unexamined.insert("/etc/pam.d/polkit-1".into(), "Permission denied".into());
    let (rows, code) = d.status(&two(), &status(&["polkit-1"]));
    assert!(
        matches!(rows[0].outcome, Outcome::Unknown(_)),
        "expected an honest non-answer, got {:?}",
        rows[0].outcome
    );
    assert_eq!(status_code(&rows[0].outcome, false), STATUS_ERROR);
    assert_eq!(code, STATUS_ERROR);
    assert_eq!(
        rows[0].path.as_deref(),
        Some("/etc/pam.d/polkit-1"),
        "and it is about the entry it could not examine, not the vendor copy"
    );
}

// -- the write phase ------------------------------------------------------

#[test]
fn a_failed_service_does_not_stop_the_rest() {
    let mut d = disk(&[
        ("/etc/pam.d/a", SUDO_BEFORE),
        ("/etc/pam.d/b", SUDO_BEFORE),
        ("/etc/pam.d/c", SUDO_BEFORE),
    ]);
    d.unwritable.insert("/etc/pam.d/b".into(), "disk full".into());
    let (lines, rows) = d.write(&one(), &add(&["a", "b", "c"])).unwrap();
    assert_eq!(rows.iter().map(|r| r.service.as_str()).collect::<Vec<_>>(), ["a", "b", "c"]);
    assert_eq!(rows[0].outcome, Outcome::Installed);
    assert!(matches!(rows[1].outcome, Outcome::Failed(_)));
    assert_eq!(rows[2].outcome, Outcome::Installed);
    assert_eq!(write_code(&rows), WRITE_FAILED);
    let failures = lines
        .iter()
        .filter(|l| matches!(l.message, PamMessage::PamConfigureFailed { .. }))
        .count();
    assert_eq!(failures, 1);
    assert_eq!(d.files["/etc/pam.d/c"], SUDO_AFTER);
}

#[test]
fn a_finished_phase_has_no_service_left() {
    let d = disk(&[("/etc/pam.d/sudo", SUDO_BEFORE)]);
    let asked = add(&["sudo"]);
    let write = verb_write(WriteAction::Add, &asked);
    let sink = Sink::verb(true);
    let Ok(Phase::Writing(mut phase)) =
        write_phase(&one(), &write, &d.all_facts(&one(), &asked), &sink)
    else {
        panic!("a whole plan is written");
    };
    assert_eq!(phase.next().unwrap().service, "sudo");
    assert!(phase.done(Outcome::Failed("full".to_string()), false, &sink).is_some());
    assert!(phase.next().is_none());
    assert!(phase.done(Outcome::Failed("again".to_string()), false, &sink).is_none());
    assert_eq!(phase.into_rows().len(), 1);
}
