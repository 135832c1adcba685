//! What is reported: rows, the JSON document, exit codes, and `pam status`.

use crate::json::{boolean, list, null, optional_text, put, record, render, text, Json};
use crate::pam::apply::{report_plan, Outcome};
use crate::pam::edit::{has_facelock_line, PAM_LINE};
use crate::pam::message::{Line, PamMessage, Route, Sink};
use crate::pam::plan::{
    requested_services, PamAction, PamRequest, Plan, ReadProbe, ServiceFacts, Target, TargetView,
    WriteAction,
};
use crate::pam::resolve::{backup_path, Origin, PamDirs};
use crate::text::joined;
use vstd::prelude::*;
use vstd::string::*;

verus! {

/// `pam status`: every requested service carries the facelock line.
pub const STATUS_PRESENT: i32 = 0;

/// `pam status`: a requested service file exists without the line.
pub const STATUS_MISSING: i32 = 1;

/// `pam status`: a requested service is absent, unreadable, or misnamed.
pub const STATUS_ERROR: i32 = 2;

/// `pam add` / `pam remove`: every service reached its requested state.
pub const WRITE_OK: i32 = 0;

/// `pam add` / `pam remove`: at least one service could not be written.
pub const WRITE_FAILED: i32 = 1;

/// Where the PAM module may be installed, in probe order.
pub const PAM_MODULE_PATHS: [&'static str; 3] = [
    "/lib/security/pam_facelock.so",
    "/usr/lib/security/pam_facelock.so",
    "/usr/lib64/security/pam_facelock.so",
];

// ---------------------------------------------------------------------------
// Rows
// ---------------------------------------------------------------------------

/// The word that an outcome is reported as. Every outcome has its own.
pub open spec fn outcome_word(outcome: Outcome<Seq<char>>) -> Seq<char> {
    match outcome {
        Outcome::Installed => "installed"@,
        Outcome::Overridden => "overridden"@,
        Outcome::VendorOnly => "vendor-only"@,
        Outcome::Removed => "removed"@,
        Outcome::Unchanged => "unchanged"@,
        Outcome::Absent => "absent"@,
        Outcome::Declined => "declined"@,
        Outcome::Failed(_) => "failed"@,
        Outcome::Present => "present"@,
        Outcome::Missing => "missing"@,
        Outcome::Unknown(_) => "unknown"@,
    }
}

/// The error that an outcome carries.
pub open spec fn outcome_error(outcome: Outcome<Seq<char>>) -> Option<Seq<char>> {
    match outcome {
        Outcome::Failed(e) => Some(e),
        Outcome::Unknown(e) => Some(e),
        _ => None,
    }
}

impl Outcome<String> {
    /// The word that this outcome is reported as.
    pub fn word(&self) -> (r: &'static str)
        ensures
            r@ == outcome_word(self@),
    {
        match self {
            Outcome::Installed => "installed",
            Outcome::Overridden => "overridden",
            Outcome::VendorOnly => "vendor-only",
            Outcome::Removed => "removed",
            Outcome::Unchanged => "unchanged",
            Outcome::Absent => "absent",
            Outcome::Declined => "declined",
            Outcome::Failed(_) => "failed",
            Outcome::Present => "present",
            Outcome::Missing => "missing",
            Outcome::Unknown(_) => "unknown",
        }
    }

    /// The error that this outcome carries.
    pub fn error(&self) -> (r: Option<&str>)
        ensures
            match r {
                Some(e) => outcome_error(self@) == Some(e@),
                None => outcome_error(self@) is None,
            },
    {
        match self {
            Outcome::Failed(e) => Some(e.as_str()),
            Outcome::Unknown(e) => Some(e.as_str()),
            _ => None,
        }
    }
}

/// One row of the report. There is no path where the name itself was refused,
/// and a backup only where one is on disk.
#[derive(Debug, Clone, PartialEq, Eq)]
pub struct ServiceReport<S = String> {
    pub service: S,
    pub path: Option<S>,
    pub outcome: Outcome<S>,
    pub backup: Option<S>,
}

/// A row as contracts speak of it.
pub type RowView = ServiceReport<Seq<char>>;

impl View for ServiceReport<String> {
    type V = ServiceReport<Seq<char>>;

    open spec fn view(&self) -> ServiceReport<Seq<char>> {
        ServiceReport {
            service: self.service@,
            path: crate::text::opt_text(self.path),
            outcome: self.outcome@,
            backup: crate::text::opt_text(self.backup),
        }
    }
}

/// The rows with character sequences for strings.
pub open spec fn rows_view(rows: Seq<ServiceReport>) -> Seq<RowView> {
    rows.map_values(|r: ServiceReport| r@)
}

/// The backup that a row names: the one beside the written file, where it is on
/// disk.
pub open spec fn backup_on_disk(path: Seq<char>, there: bool) -> Option<Seq<char>> {
    if there {
        Some(crate::pam::resolve::backup_of(path))
    } else {
        None
    }
}

/// The row of a service that was written, or would be. A dry run names no
/// backup, and neither does an override: it preserved nothing.
pub open spec fn write_row(
    target: TargetView,
    outcome: Outcome<Seq<char>>,
    dry_run: bool,
    backup_exists: bool,
) -> RowView {
    ServiceReport {
        service: target.service,
        path: Some(crate::pam::plan::reported_path_of(target)),
        outcome,
        backup: if dry_run || outcome is Overridden {
            None
        } else {
            backup_on_disk(
                crate::pam::resolve::write_path_of(target.path, target.origin),
                backup_exists,
            )
        },
    }
}

/// The row of a service that was written, or would be.
pub fn report_row(target: &Target, outcome: Outcome, dry_run: bool, backup_exists: bool) -> (r:
    ServiceReport)
    ensures
        r@ == write_row(target@, outcome@, dry_run, backup_exists),
{
    let overridden = match &outcome {
        Outcome::Overridden => true,
        _ => false,
    };
    let backup = if dry_run || overridden || !backup_exists {
        None
    } else {
        Some(backup_path(target.write_path()))
    };
    ServiceReport {
        service: target.service.clone(),
        path: Some(target.reported_path()),
        outcome,
        backup,
    }
}

/// The line for a failed service, where this surface reports failures itself.
pub open spec fn failure_said(
    target: TargetView,
    outcome: Outcome<Seq<char>>,
    sink: Sink,
) -> Option<Line<Seq<char>>> {
    match outcome {
        Outcome::Failed(error) if sink.report_failures => Some(
            Line {
                route: Route::Error,
                message: PamMessage::PamConfigureFailed { service: target.service, error },
            },
        ),
        _ => None,
    }
}

/// The line for a failed service, where this surface reports failures itself.
pub fn failure_line(target: &Target, outcome: &Outcome, sink: &Sink) -> (r: Option<Line>)
    ensures
        match r {
            Some(line) => failure_said(target@, outcome@, *sink) == Some(line@),
            None => failure_said(target@, outcome@, *sink) is None,
        },
{
    match outcome {
        Outcome::Failed(error) => if sink.report_failures {
            Some(
                Line {
                    route: Route::Error,
                    message: PamMessage::PamConfigureFailed {
                        service: target.service.clone(),
                        error: error.clone(),
                    },
                },
            )
        } else {
            None
        },
        _ => None,
    }
}

/// A dry run of every target: what is said and what is reported, in order.
pub fn dry_run_all(targets: &Vec<Target>, action: WriteAction, sink: &Sink) -> (r: (
    Vec<Line>,
    Vec<ServiceReport>,
))
    ensures
        crate::pam::message::lines_view(r.0@) == targets@.map_values(
            |t: Target|
                Line {
                    route: sink.info(),
                    message: crate::pam::apply::foreseen(t@, action).0,
                },
        ),
        rows_view(r.1@) == targets@.map_values(
            |t: Target|
                write_row(t@, crate::pam::apply::foreseen(t@, action).1, true, false),
        ),
{
    let ghost said = targets@.map_values(
        |t: Target|
            Line { route: sink.info(), message: crate::pam::apply::foreseen(t@, action).0 },
    );
    let ghost shown = targets@.map_values(
        |t: Target| write_row(t@, crate::pam::apply::foreseen(t@, action).1, true, false),
    );
    let mut lines: Vec<Line> = Vec::new();
    let mut rows: Vec<ServiceReport> = Vec::new();
    let mut i: usize = 0;
    while i < targets.len()
        invariant
            i <= targets.len(),
            said == targets@.map_values(
                |t: Target|
                    Line {
                        route: sink.info(),
                        message: crate::pam::apply::foreseen(t@, action).0,
                    },
            ),
            shown == targets@.map_values(
                |t: Target| write_row(t@, crate::pam::apply::foreseen(t@, action).1, true, false),
            ),
            crate::pam::message::lines_view(lines@) == said.take(i as int),
            rows_view(rows@) == shown.take(i as int),
        decreases targets.len() - i,
    {
        let ghost lines_before = crate::pam::message::lines_view(lines@);
        let ghost rows_before = rows_view(rows@);
        let (line, outcome) = report_plan(&targets[i], action, sink);
        let row = report_row(&targets[i], outcome, true, false);
        lines.push(line);
        rows.push(row);
        assert(crate::pam::message::lines_view(lines@) == lines_before.push(line@));
        assert(rows_view(rows@) == rows_before.push(row@));
        i += 1;
    }
    (lines, rows)
}

/// The closing hint of an addition, once for the whole run.
pub fn extension_hint(sink: &Sink) -> (r: Line)
    ensures
        r@ == (Line {
            route: sink.info(),
            message: PamMessage::PamExtensionHint { line: PAM_LINE@ },
        }),
{
    Line {
        route: sink.info_route(),
        message: PamMessage::PamExtensionHint { line: String::from_str(PAM_LINE) },
    }
}

/// The error of the first failed row.
pub open spec fn first_failed(rows: Seq<RowView>) -> Option<Seq<char>>
    decreases rows.len(),
{
    if rows.len() == 0 {
        None
    } else if rows[0].outcome is Failed {
        outcome_error(rows[0].outcome)
    } else {
        first_failed(rows.skip(1))
    }
}

/// The first failure among the rows, for a caller whose answer is a result.
pub fn first_failure(rows: &Vec<ServiceReport>) -> (r: Result<(), String>)
    ensures
        match r {
            Ok(_) => first_failed(rows_view(rows@)) is None,
            Err(e) => first_failed(rows_view(rows@)) == Some(e@),
        },
{
    let ghost all = rows_view(rows@);
    let mut i: usize = 0;
    assert(all.skip(0) == all);
    while i < rows.len()
        invariant
            i <= rows.len(),
            all == rows_view(rows@),
            first_failed(all) == first_failed(all.skip(i as int)),
        decreases rows.len() - i,
    {
        assert(all.skip(i as int)[0] == rows[i as int]@);
        assert(all.skip(i as int).skip(1) == all.skip(i as int + 1));
        if let Outcome::Failed(error) = &rows[i].outcome {
            return Err(error.clone());
        }
        i += 1;
    }
    Ok(())
}

/// The exit code of a write.
pub open spec fn written_code(rows: Seq<RowView>) -> i32 {
    if first_failed(rows) is None {
        WRITE_OK
    } else {
        WRITE_FAILED
    }
}

/// Whether the module is in one of its places.
pub open spec fn is_installed(there: Seq<bool>) -> bool {
    there[0] || there[1] || there[2]
}

/// The exit code of a write: zero exactly when no service failed.
pub fn write_code(rows: &Vec<ServiceReport>) -> (r: i32)
    ensures
        r == written_code(rows_view(rows@)),
        r == WRITE_OK || r == WRITE_FAILED,
        r == WRITE_OK <==> forall|i: int|
            0 <= i < rows.len() ==> !((#[trigger] rows[i]).outcome is Failed),
{
    proof {
        lemma_first_failed(rows_view(rows@));
        assert forall|i: int| 0 <= i < rows.len() implies #[trigger] rows_view(rows@)[i]
            == rows[i]@ by {}
    }
    match first_failure(rows) {
        Ok(_) => {
            assert forall|i: int| 0 <= i < rows.len() implies !((
            #[trigger] rows[i]).outcome is Failed) by {
                assert(!(rows_view(rows@)[i].outcome is Failed));
            }
            WRITE_OK
        },
        Err(_) => WRITE_FAILED,
    }
}

proof fn lemma_first_failed(rows: Seq<RowView>)
    ensures
        first_failed(rows) is None <==> forall|i: int|
            0 <= i < rows.len() ==> !((#[trigger] rows[i]).outcome is Failed),
    decreases rows.len(),
{
    if rows.len() > 0 && !(rows[0].outcome is Failed) {
        let rest = rows.skip(1);
        lemma_first_failed(rest);
        assert forall|i: int| 0 < i < rows.len() implies #[trigger] rows[i] == rest[i - 1] by {}
        if first_failed(rest) is None {
            assert forall|i: int| 0 <= i < rows.len() implies !((
            #[trigger] rows[i]).outcome is Failed) by {
                if i > 0 {
                    assert(rows[i] == rest[i - 1]);
                }
            }
        } else {
            let k = choose|k: int| 0 <= k < rest.len() && (#[trigger] rest[k]).outcome is Failed;
            assert(rows[k + 1] == rest[k]);
        }
    }
}

// ---------------------------------------------------------------------------
// The module
// ---------------------------------------------------------------------------

/// The first candidate that exists.
pub open spec fn first_there(candidates: Seq<&str>, there: Seq<bool>) -> Option<Seq<char>>
    decreases candidates.len(),
{
    if candidates.len() == 0 || there.len() == 0 {
        None
    } else if there[0] {
        Some(candidates[0]@)
    } else {
        first_there(candidates.skip(1), there.skip(1))
    }
}

/// The first candidate that exists, given which do.
pub fn first_existing(candidates: &[&'static str], there: &Vec<bool>) -> (r: Option<&'static str>)
    requires
        there.len() == candidates.len(),
    ensures
        match r {
            Some(p) => first_there(candidates@, there@) == Some(p@),
            None => first_there(candidates@, there@) is None,
        },
{
    let mut i: usize = 0;
    assert(candidates@.skip(0) == candidates@ && there@.skip(0) == there@);
    while i < candidates.len()
        invariant
            i <= candidates.len(),
            there.len() == candidates.len(),
            first_there(candidates@, there@) == first_there(
                candidates@.skip(i as int),
                there@.skip(i as int),
            ),
        decreases candidates.len() - i,
    {
        assert(candidates@.skip(i as int).skip(1) == candidates@.skip(i as int + 1));
        assert(there@.skip(i as int).skip(1) == there@.skip(i as int + 1));
        if there[i] {
            return Some(candidates[i]);
        }
        i += 1;
    }
    None
}

/// Where the module was found, given which of [`PAM_MODULE_PATHS`] exist.
pub fn installed_module_path(there: &Vec<bool>) -> (r: Option<&'static str>)
    requires
        there.len() == 3,
    ensures
        match r {
            Some(p) => first_there(PAM_MODULE_PATHS@, there@) == Some(p@),
            None => first_there(PAM_MODULE_PATHS@, there@) is None,
        },
{
    let candidates = PAM_MODULE_PATHS;
    first_existing(candidates.as_slice(), there)
}

/// Whether the module is at any of its places.
pub fn module_installed(there: &Vec<bool>) -> (r: bool)
    requires
        there.len() == 3,
    ensures
        r == is_installed(there@),
{
    let found = installed_module_path(there).is_some();
    proof {
        reveal_with_fuel(first_there, 4);
        let p = PAM_MODULE_PATHS@;
        assert(p.skip(1).len() == 2 && p.skip(1).skip(1).len() == 1);
        let t = there@;
        assert(t.skip(1)[0] == t[1] && t.skip(1).skip(1)[0] == t[2]);
    }
    found
}

/// The refusal to write a line whose module is missing. It names every
/// candidate.
pub open spec fn module_refusal() -> PamMessage<Seq<char>> {
    PamMessage::PamModuleNotInstalled {
        paths: crate::text::join(
            seq![
                "/lib/security/pam_facelock.so"@,
                "/usr/lib/security/pam_facelock.so"@,
                "/usr/lib64/security/pam_facelock.so"@,
            ],
            ", "@,
        ),
        path: "/lib/security/pam_facelock.so"@,
    }
}

/// The precondition that the line is useless without.
pub fn require_module_installed(there: &Vec<bool>) -> (r: Result<(), PamMessage>)
    requires
        there.len() == 3,
    ensures
        match r {
            Ok(_) => there[0] || there[1] || there[2],
            Err(m) => !(there[0] || there[1] || there[2]) && m@ == module_refusal(),
        },
{
    if module_installed(there) {
        return Ok(());
    }
    let candidates = PAM_MODULE_PATHS;
    assert(candidates@ =~= seq![
        "/lib/security/pam_facelock.so",
        "/usr/lib/security/pam_facelock.so",
        "/usr/lib64/security/pam_facelock.so",
    ]);
    let mut paths: Vec<String> = Vec::new();
    paths.push(String::from_str(candidates[0]));
    paths.push(String::from_str(candidates[1]));
    paths.push(String::from_str(candidates[2]));
    assert(crate::text::texts(paths@) =~= seq![
        "/lib/security/pam_facelock.so"@,
        "/usr/lib/security/pam_facelock.so"@,
        "/usr/lib64/security/pam_facelock.so"@,
    ]);
    Err(
        PamMessage::PamModuleNotInstalled {
            paths: joined(&paths, ", "),
            path: String::from_str(candidates[0]),
        },
    )
}

// ---------------------------------------------------------------------------
// Status
// ---------------------------------------------------------------------------

/// What `status` says of a located service, by what its file holds.
pub open spec fn status_of(target: TargetView, read: ReadProbe<Seq<char>>, sink: Sink) -> (
    Line<Seq<char>>,
    Outcome<Seq<char>>,
) {
    let path = target.path;
    match read {
        ReadProbe::Content(c) => if crate::pam::edit::carries_line(c) {
            (
                Line { route: sink.info(), message: PamMessage::PamStatusPresent { path } },
                Outcome::Present,
            )
        } else if target.origin is Vendor {
            (
                Line { route: sink.info(), message: PamMessage::PamStatusVendorOnly { path } },
                Outcome::VendorOnly,
            )
        } else {
            (
                Line { route: sink.info(), message: PamMessage::PamStatusMissing { path } },
                Outcome::Missing,
            )
        },
        ReadProbe::NotFound => (
            Line {
                route: sink.info(),
                message: PamMessage::PamStatusAbsent {
                    paths: crate::pam::plan::tried_paths_of(target),
                },
            },
            Outcome::Absent,
        ),
        ReadProbe::Failed(error) => (
            Line {
                route: Route::Error,
                message: PamMessage::PamStatusUnknown { path, error },
            },
            Outcome::Unknown(error),
        ),
    }
}

/// The line and row of one service.
pub open spec fn status_row(
    dirs: Seq<Seq<char>>,
    service: Seq<char>,
    facts: crate::pam::plan::FactsView,
    backup_exists: bool,
    sink: Sink,
) -> (Line<Seq<char>>, RowView) {
    match crate::pam::plan::located(dirs, service, facts.entries) {
        Err(why) => (
            Line {
                route: Route::Error,
                message: crate::pam::resolve::rejected_message(why, service),
            },
            ServiceReport {
                service,
                path: crate::pam::resolve::rejected_link(why),
                outcome: Outcome::Unknown(crate::pam::resolve::rejected_reason(why)),
                backup: match crate::pam::resolve::rejected_link(why) {
                    Some(link) => backup_on_disk(link, backup_exists),
                    None => None,
                },
            },
        ),
        Ok(target) => {
            let (line, outcome) = status_of(target, facts.read, sink);
            (
                line,
                ServiceReport {
                    service,
                    path: Some(target.path),
                    outcome,
                    backup: backup_on_disk(
                        crate::pam::resolve::write_path_of(target.path, target.origin),
                        backup_exists,
                    ),
                },
            )
        },
    }
}

fn status_of_target(target: &Target, read: &ReadProbe, sink: &Sink) -> (r: (Line, Outcome))
    ensures
        r.0@ == status_of(target@, read@, *sink).0,
        r.1@ == status_of(target@, read@, *sink).1,
{
    let path = target.path.clone();
    match read {
        ReadProbe::Content(content) => {
            let vendor_only = match &target.origin {
                Origin::Vendor { .. } => true,
                _ => false,
            };
            if has_facelock_line(content.as_str()) {
                (
                    Line {
                        route: sink.info_route(),
                        message: PamMessage::PamStatusPresent { path },
                    },
                    Outcome::Present,
                )
            } else if vendor_only {
                (
                    Line {
                        route: sink.info_route(),
                        message: PamMessage::PamStatusVendorOnly { path },
                    },
                    Outcome::VendorOnly,
                )
            } else {
                (
                    Line {
                        route: sink.info_route(),
                        message: PamMessage::PamStatusMissing { path },
                    },
                    Outcome::Missing,
                )
            }
        },
        ReadProbe::NotFound => (
            Line {
                route: sink.info_route(),
                message: PamMessage::PamStatusAbsent { paths: target.tried_paths() },
            },
            Outcome::Absent,
        ),
        ReadProbe::Failed(error) => (
            Line {
                route: Route::Error,
                message: PamMessage::PamStatusUnknown { path, error: error.clone() },
            },
            Outcome::Unknown(error.clone()),
        ),
    }
}

/// The line and row of one service. A service that is refused is unknown, as
/// is one that cannot be read: the question has no answer.
pub fn status_report(
    dirs: &PamDirs,
    service: &str,
    facts: &ServiceFacts,
    backup_exists: bool,
    sink: &Sink,
) -> (r: (Line, ServiceReport))
    requires
        facts.entries.len() == dirs@.len(),
    ensures
        r.0@ == status_row(dirs@, service@, facts@, backup_exists, *sink).0,
        r.1@ == status_row(dirs@, service@, facts@, backup_exists, *sink).1,
{
    match Target::locate(dirs, service, &facts.entries) {
        Err(why) => {
            let backup = match why.link() {
                Some(link) => if backup_exists {
                    Some(backup_path(link))
                } else {
                    None
                },
                None => None,
            };
            (
                Line { route: Route::Error, message: why.message(service) },
                ServiceReport {
                    service: String::from_str(service),
                    path: why.path(),
                    outcome: Outcome::Unknown(String::from_str(why.reason())),
                    backup,
                },
            )
        },
        Ok(target) => {
            let (line, outcome) = status_of_target(&target, &facts.read, sink);
            let backup = if backup_exists {
                Some(backup_path(target.write_path()))
            } else {
                None
            };
            (
                line,
                ServiceReport {
                    service: String::from_str(service),
                    path: Some(target.path_string()),
                    outcome,
                    backup,
                },
            )
        },
    }
}

/// One line and one row for each service, given what the file system says of
/// each and whether its backup is on disk.
pub fn status_reports(
    dirs: &PamDirs,
    services: &Vec<String>,
    facts: &Vec<ServiceFacts>,
    backups: &Vec<bool>,
    sink: &Sink,
) -> (r: (Vec<Line>, Vec<ServiceReport>))
    requires
        facts.len() == services.len(),
        backups.len() == services.len(),
        forall|i: int| 0 <= i < facts.len() ==> (#[trigger] facts[i]).entries.len() == dirs@.len(),
    ensures
        r.0.len() == services.len(),
        r.1.len() == services.len(),
        forall|i: int|
            0 <= i < services.len() ==> (#[trigger] r.0[i])@ == status_row(
                dirs@,
                services[i]@,
                facts[i]@,
                backups[i],
                *sink,
            ).0,
        forall|i: int|
            0 <= i < services.len() ==> (#[trigger] r.1[i])@ == status_row(
                dirs@,
                services[i]@,
                facts[i]@,
                backups[i],
                *sink,
            ).1,
{
    let mut lines: Vec<Line> = Vec::new();
    let mut rows: Vec<ServiceReport> = Vec::new();
    let mut i: usize = 0;
    while i < services.len()
        invariant
            i <= services.len(),
            facts.len() == services.len(),
            backups.len() == services.len(),
            lines.len() == i,
            rows.len() == i,
            forall|k: int|
                0 <= k < facts.len() ==> (#[trigger] facts[k]).entries.len() == dirs@.len(),
            forall|k: int|
                0 <= k < i ==> (#[trigger] lines[k])@ == status_row(
                    dirs@,
                    services[k]@,
                    facts[k]@,
                    backups[k],
                    *sink,
                ).0,
            forall|k: int|
                0 <= k < i ==> (#[trigger] rows[k])@ == status_row(
                    dirs@,
                    services[k]@,
                    facts[k]@,
                    backups[k],
                    *sink,
                ).1,
        decreases services.len() - i,
    {
        let (line, row) = status_report(dirs, services[i].as_str(), &facts[i], backups[i], sink);
        lines.push(line);
        rows.push(row);
        i += 1;
    }
    (lines, rows)
}

/// The exit code of one outcome: `grep`'s scale. `--if-present` converts
/// absence and nothing else.
pub open spec fn code_of(outcome: Outcome<Seq<char>>, if_present: bool) -> i32 {
    match outcome {
        Outcome::Present => STATUS_PRESENT,
        Outcome::Missing | Outcome::VendorOnly => STATUS_MISSING,
        Outcome::Absent => if if_present {
            STATUS_PRESENT
        } else {
            STATUS_ERROR
        },
        _ => STATUS_ERROR,
    }
}

/// The exit code of one outcome.
pub fn status_code(outcome: &Outcome, if_present: bool) -> (r: i32)
    ensures
        r == code_of(outcome@, if_present),
{
    match outcome {
        Outcome::Present => STATUS_PRESENT,
        Outcome::Missing => STATUS_MISSING,
        Outcome::VendorOnly => STATUS_MISSING,
        Outcome::Absent => if if_present {
            STATUS_PRESENT
        } else {
            STATUS_ERROR
        },
        _ => STATUS_ERROR,
    }
}

/// The exit code of a status: the worst among the rows.
pub open spec fn worst_code(rows: Seq<RowView>, if_present: bool) -> i32
    decreases rows.len(),
{
    if rows.len() == 0 {
        STATUS_PRESENT
    } else {
        let front = worst_code(rows.drop_last(), if_present);
        let last = code_of(rows.last().outcome, if_present);
        if front >= last {
            front
        } else {
            last
        }
    }
}

/// The exit code of a status: the worst among the rows.
pub fn status_exit(rows: &Vec<ServiceReport>, if_present: bool) -> (r: i32)
    ensures
        r == worst_code(rows_view(rows@), if_present),
{
    let ghost all = rows_view(rows@);
    let mut code: i32 = STATUS_PRESENT;
    let mut i: usize = 0;
    assert(all.take(0) == Seq::<RowView>::empty());
    while i < rows.len()
        invariant
            i <= rows.len(),
            all == rows_view(rows@),
            code == worst_code(all.take(i as int), if_present),
        decreases rows.len() - i,
    {
        assert(all.take(i as int + 1).drop_last() == all.take(i as int));
        assert(all.take(i as int + 1).last() == rows[i as int]@);
        let next: i32 = status_code(&rows[i].outcome, if_present);
        if next > code {
            code = next;
        }
        i += 1;
    }
    assert(all.take(rows.len() as int) == all);
    code
}

/// `pam status`: what is said, what is reported, and the exit code.
pub fn status_in(
    dirs: &PamDirs,
    request: &PamRequest,
    facts: &Vec<ServiceFacts>,
    backups: &Vec<bool>,
) -> (r: (Vec<Line>, Vec<ServiceReport>, i32))
    requires
        facts.len() == crate::pam::plan::requested(crate::text::texts(request.services@)).len(),
        backups.len() == facts.len(),
        forall|i: int| 0 <= i < facts.len() ==> (#[trigger] facts[i]).entries.len() == dirs@.len(),
    ensures
        ({
            let services = crate::pam::plan::requested(crate::text::texts(request.services@));
            let sink = Sink { json: request.json, report_failures: true };
            &&& r.0.len() == services.len()
            &&& r.1.len() == services.len()
            &&& forall|i: int|
                0 <= i < services.len() ==> (#[trigger] r.0[i])@ == status_row(
                    dirs@,
                    services[i],
                    facts[i]@,
                    backups[i],
                    sink,
                ).0
            &&& forall|i: int|
                0 <= i < services.len() ==> (#[trigger] r.1[i])@ == status_row(
                    dirs@,
                    services[i],
                    facts[i]@,
                    backups[i],
                    sink,
                ).1
            &&& r.2 == worst_code(rows_view(r.1@), request.if_present)
        }),
{
    let services = requested_services(&request.services);
    let sink = Sink::verb(request.json);
    let (lines, rows) = status_reports(dirs, &services, facts, backups, &sink);
    proof {
        let texts = crate::text::texts(services@);
        assert forall|i: int| 0 <= i < services.len() implies #[trigger] texts[i] == services[
            i
        ]@ by {}
    }
    let code = status_exit(&rows, request.if_present);
    (lines, rows, code)
}

// ---------------------------------------------------------------------------
// The document
// ---------------------------------------------------------------------------

/// One service in the document. `error` is there exactly when the outcome
/// carries one.
pub open spec fn row_json(row: RowView) -> Json {
    let base = Map::<Seq<char>, Json>::empty().insert("service"@, Json::Text(row.service)).insert(
        "path"@,
        crate::json::text_or_null(row.path),
    ).insert("action"@, Json::Text(outcome_word(row.outcome))).insert(
        "backup"@,
        crate::json::text_or_null(row.backup),
    );
    Json::Record(
        match outcome_error(row.outcome) {
            Some(error) => base.insert("error"@, Json::Text(error)),
            None => base,
        },
    )
}

/// The document of an invocation. `status` alone names where the module is.
pub open spec fn report_document(
    action: PamAction,
    dry_run: bool,
    rows: Seq<RowView>,
    module_at: Option<Seq<char>>,
) -> Json {
    let base = Map::<Seq<char>, Json>::empty().insert(
        "command"@,
        Json::Text(crate::pam::plan::action_word(action)),
    ).insert("dry_run"@, Json::Bool(dry_run)).insert(
        "services"@,
        Json::List(rows.map_values(|r: RowView| row_json(r))),
    );
    Json::Record(
        if action == PamAction::Status {
            base.insert("module_path"@, crate::json::text_or_null(module_at))
        } else {
            base
        },
    )
}

fn row_value(row: &ServiceReport) -> (r: serde_json::Value)
    ensures
        crate::json::json_of(r) == row_json(row@),
{
    let mut object = record();
    put(&mut object, "service", text(row.service.as_str()));
    put(&mut object, "path", optional_text(&row.path));
    put(&mut object, "action", text(row.outcome.word()));
    put(&mut object, "backup", optional_text(&row.backup));
    if let Some(error) = row.outcome.error() {
        put(&mut object, "error", text(error));
    }
    object
}

/// The document of an invocation, as one line of text. `module_at` is where
/// the module was found.
pub fn report_json(
    action: PamAction,
    dry_run: bool,
    rows: &Vec<ServiceReport>,
    module_at: Option<&'static str>,
) -> (r: String)
    ensures
        r@ == crate::json::rendered(
            report_document(
                action,
                dry_run,
                rows_view(rows@),
                match module_at {
                    Some(p) => Some(p@),
                    None => None,
                },
            ),
        ),
{
    let ghost wanted = rows_view(rows@).map_values(|r: RowView| row_json(r));
    let mut services: Vec<serde_json::Value> = Vec::new();
    let mut i: usize = 0;
    while i < rows.len()
        invariant
            i <= rows.len(),
            wanted == rows_view(rows@).map_values(|r: RowView| row_json(r)),
            crate::json::json_list(services@) == wanted.take(i as int),
        decreases rows.len() - i,
    {
        let ghost before = crate::json::json_list(services@);
        let value = row_value(&rows[i]);
        services.push(value);
        assert(crate::json::json_list(services@) == before.push(crate::json::json_of(value)));
        i += 1;
    }
    assert(wanted.take(rows.len() as int) == wanted);
    let mut document = record();
    put(&mut document, "command", text(action.word()));
    put(&mut document, "dry_run", boolean(dry_run));
    put(&mut document, "services", list(services));
    if action == PamAction::Status {
        let found = match module_at {
            Some(p) => text(p),
            None => null(),
        };
        put(&mut document, "module_path", found);
    }
    render(&document)
}

// ---------------------------------------------------------------------------
// Entry
// ---------------------------------------------------------------------------

/// What an invocation is to do, once its preconditions hold.
#[derive(Debug, Clone, Copy, PartialEq, Eq, Structural)]
pub enum Run {
    Status,
    Write(WriteAction),
}

/// What an invocation is to do, or why it is refused.
pub open spec fn begun(action: PamAction, is_root: bool, module_there: Seq<bool>) -> Result<
    Run,
    PamMessage<Seq<char>>,
> {
    match WriteAction::asked_for(action) {
        None => Ok(Run::Status),
        Some(write) => if !is_root {
            Err(
                PamMessage::PamRootRequired {
                    command: "sudo facelock pam "@ + crate::pam::plan::action_word(action),
                },
            )
        } else if write == WriteAction::Add && !is_installed(module_there) {
            Err(module_refusal())
        } else {
            Ok(Run::Write(write))
        },
    }
}

/// Begin `facelock pam`: a status needs nothing; a write needs root before
/// anything else, and an addition then needs the module.
pub fn run(request: &PamRequest, is_root: bool, module_there: &Vec<bool>) -> (r: Result<
    Run,
    PamMessage,
>)
    requires
        module_there.len() == 3,
    ensures
        match r {
            Ok(run) => begun(request.action, is_root, module_there@) == Ok::<
                Run,
                PamMessage<Seq<char>>,
            >(run),
            Err(m) => begun(request.action, is_root, module_there@) == Err::<
                Run,
                PamMessage<Seq<char>>,
            >(m@),
        },
{
    let action = match WriteAction::of(request.action) {
        Some(action) => action,
        None => {
            return Ok(Run::Status);
        },
    };
    if !is_root {
        let mut command = String::from_str("sudo facelock pam ");
        command.append(request.action.word());
        return Err(PamMessage::PamRootRequired { command });
    }
    if action == WriteAction::Add {
        match require_module_installed(module_there) {
            Ok(_) => {},
            Err(m) => {
                return Err(m);
            },
        }
    }
    Ok(Run::Write(action))
}

// ---------------------------------------------------------------------------
// Laws
// ---------------------------------------------------------------------------

/// A write exits with zero exactly if no service failed, and with one otherwise.
pub proof fn law_one_failure_fails_the_write(rows: Seq<RowView>)
    ensures
        written_code(rows) == 0 <==> forall|i: int|
            0 <= i < rows.len() ==> !((#[trigger] rows[i]).outcome is Failed),
        written_code(rows) == 0 || written_code(rows) == 1,
{
    lemma_first_failed(rows);
}

/// A status runs for anyone; a write runs exactly for root, and an addition only
/// with the module in some place. Who is not root is told so first.
pub proof fn law_only_root_writes(action: PamAction, is_root: bool, module_there: Seq<bool>)
    requires
        module_there.len() == 3,
    ensures
        action is Status ==> begun(action, is_root, module_there) == Ok::<
            Run,
            PamMessage<Seq<char>>,
        >(Run::Status),
        action is Remove ==> (begun(action, is_root, module_there) is Ok <==> is_root),
        action is Add ==> (begun(action, is_root, module_there) is Ok <==> is_root && exists|i: int|
            0 <= i < 3 && #[trigger] module_there[i]),
        action is Remove && is_root ==> begun(action, is_root, module_there) == Ok::<
            Run,
            PamMessage<Seq<char>>,
        >(Run::Write(WriteAction::Remove)),
        action is Add ==> (begun(action, is_root, module_there) matches Ok(run) ==> run
            == Run::Write(WriteAction::Add)),
        !is_root && !(action is Status) ==> (begun(action, is_root, module_there) matches Err(
            PamMessage::PamRootRequired { command },
        ) && command == "sudo facelock pam "@ + crate::pam::plan::action_word(action)),
{
}

/// A failure is said, as an error that names the service and the reason, exactly
/// where the surface says its own failures; and nothing but a failure is.
pub proof fn law_only_failures_are_said(
    target: TargetView,
    outcome: Outcome<Seq<char>>,
    sink: Sink,
)
    ensures
        failure_said(target, outcome, sink) is Some <==> outcome is Failed && sink.report_failures,
        failure_said(target, outcome, sink) matches Some(line) ==> line.route == Route::Error
            && line.message == (PamMessage::PamConfigureFailed {
            service: target.service,
            error: outcome->Failed_0,
        }),
{
}

/// The module is installed exactly if it is in some place, and a refusal names the
/// first place and every one.
pub proof fn law_the_module_is_somewhere_or_missed_everywhere(there: Seq<bool>)
    requires
        there.len() == 3,
    ensures
        is_installed(there) <==> exists|i: int| 0 <= i < 3 && #[trigger] there[i],
        module_refusal() matches PamMessage::PamModuleNotInstalled { paths, path } && path
            == "/lib/security/pam_facelock.so"@ && paths == crate::text::join(
            seq![
                "/lib/security/pam_facelock.so"@,
                "/usr/lib/security/pam_facelock.so"@,
                "/usr/lib64/security/pam_facelock.so"@,
            ],
            ", "@,
        ),
        PAM_MODULE_PATHS@.len() == 3,
{
}

/// A backup is told of exactly where it is on disk, and by the name that backups of
/// the file have.
pub proof fn law_only_a_backup_on_disk_is_told_of(path: Seq<char>, there: bool)
    ensures
        backup_on_disk(path, there) is Some <==> there,
        backup_on_disk(path, there) matches Some(backup) ==> backup
            == crate::pam::resolve::backup_of(path),
{
}

/// No two outcomes are reported by the same word, but for the error they carry.
pub proof fn law_outcome_words_are_distinct(a: Outcome<Seq<char>>, b: Outcome<Seq<char>>)
    requires
        outcome_word(a) == outcome_word(b),
    ensures
        outcome_error(a) is None && outcome_error(b) is None ==> a == b,
        outcome_error(a) is None <==> outcome_error(b) is None,
        a is Failed <==> b is Failed,
{
    reveal_strlit("installed");
    reveal_strlit("overridden");
    reveal_strlit("vendor-only");
    reveal_strlit("removed");
    reveal_strlit("unchanged");
    reveal_strlit("absent");
    reveal_strlit("declined");
    reveal_strlit("failed");
    reveal_strlit("present");
    reveal_strlit("missing");
    reveal_strlit("unknown");
    let x = outcome_word(a);
    let y = outcome_word(b);
    assert(x.len() == y.len());
    assert(x[0] == y[0]);
    assert(x[1] == y[1]);
    assert(x[2] == y[2]);
}

/// The exit code of a status is zero exactly when every row's code is, and is
/// never better than any row's.
pub proof fn law_worst_row_decides_the_exit(rows: Seq<RowView>, if_present: bool)
    ensures
        worst_code(rows, if_present) == STATUS_PRESENT <==> forall|i: int|
            0 <= i < rows.len() ==> code_of((#[trigger] rows[i]).outcome, if_present)
                == STATUS_PRESENT,
        forall|i: int|
            0 <= i < rows.len() ==> code_of((#[trigger] rows[i]).outcome, if_present)
                <= worst_code(rows, if_present),
        STATUS_PRESENT <= worst_code(rows, if_present) <= STATUS_ERROR,
    decreases rows.len(),
{
    if rows.len() > 0 {
        let front = rows.drop_last();
        law_worst_row_decides_the_exit(front, if_present);
        assert forall|i: int| 0 <= i < front.len() implies #[trigger] front[i] == rows[i] by {}
        assert forall|i: int| 0 <= i < rows.len() implies code_of(
            (#[trigger] rows[i]).outcome,
            if_present,
        ) <= worst_code(rows, if_present) by {
            if i < front.len() {
                assert(front[i] == rows[i]);
            }
        }
        if worst_code(rows, if_present) == STATUS_PRESENT {
            assert forall|i: int| 0 <= i < rows.len() implies code_of(
                (#[trigger] rows[i]).outcome,
                if_present,
            ) == STATUS_PRESENT by {
                if i < front.len() {
                    assert(front[i] == rows[i]);
                }
            }
        } else if forall|i: int|
            0 <= i < rows.len() ==> code_of((#[trigger] rows[i]).outcome, if_present)
                == STATUS_PRESENT {
            assert forall|i: int| 0 <= i < front.len() implies code_of(
                (#[trigger] front[i]).outcome,
                if_present,
            ) == STATUS_PRESENT by {
                assert(rows[i] == front[i]);
            }
            assert(rows[rows.len() - 1] == rows.last());
        }
    }
}

/// `--if-present` changes the exit code of an absent service and of no other.
pub proof fn law_if_present_forgives_absence_only(outcome: Outcome<Seq<char>>)
    ensures
        code_of(outcome, true) != code_of(outcome, false) <==> outcome is Absent,
{
}

/// What `status` finds: the line present exactly where the file that the name means
/// carries it; a vendor file without it as that, and any other file as missing it;
/// an absent file as absent, and one that cannot be read as unknown, with the
/// error.
pub proof fn law_status_is_what_the_file_holds(
    target: TargetView,
    content: Seq<char>,
    error: Seq<char>,
    sink: Sink,
)
    ensures
        ({
            let found = status_of(target, ReadProbe::Content(content), sink).1;
            let there = crate::pam::edit::carries_line(content);
            &&& found is Present <==> there
            &&& found is VendorOnly <==> !there && target.origin is Vendor
            &&& found is Missing <==> !there && !(target.origin is Vendor)
            &&& status_of(target, ReadProbe::NotFound, sink).1 is Absent
            &&& status_of(target, ReadProbe::Failed(error), sink).1 == Outcome::Unknown(error)
        }),
{
}

/// The row of a status names the service, the file that it means, and its backup
/// where that is on disk; a refused name has no file, and its reason is a fixed
/// text.
pub proof fn law_a_status_row_tells_of_its_file(
    dirs: Seq<Seq<char>>,
    service: Seq<char>,
    facts: crate::pam::plan::FactsView,
    backup_exists: bool,
    sink: Sink,
)
    ensures
        ({
            let row = status_row(dirs, service, facts, backup_exists, sink).1;
            &&& row.service == service
            &&& !backup_exists ==> row.backup is None
            &&& match crate::pam::plan::located(dirs, service, facts.entries) {
                Ok(target) => row.path == Some(target.path) && row.outcome == status_of(
                    target,
                    facts.read,
                    sink,
                ).1 && (backup_exists ==> row.backup == Some(
                    crate::pam::resolve::write_path_of(target.path, target.origin)
                        + ".facelock-backup"@,
                )),
                Err(why) => row.outcome == Outcome::Unknown(
                    crate::pam::resolve::rejected_reason(why),
                ) && row.path == crate::pam::resolve::rejected_link(why),
            }
        }),
{
}

/// The exit code of one service: 0 for the line, 1 for a file without it, 2 for no
/// answer; an absent service is an error unless absence was said to be fine.
pub proof fn law_the_codes_are_those_of_grep(error: Seq<char>, if_present: bool)
    ensures
        code_of(Outcome::Present, if_present) == 0,
        code_of(Outcome::Missing, if_present) == 1,
        code_of(Outcome::VendorOnly, if_present) == 1,
        code_of(Outcome::Unknown(error), if_present) == 2,
        code_of(Outcome::Absent, true) == 0,
        code_of(Outcome::Absent, false) == 2,
{
}

/// The exit code of several services is the code of one of them, and no other has
/// a higher one; without services it is 0.
pub proof fn law_the_exit_code_is_some_services(rows: Seq<RowView>, if_present: bool)
    ensures
        rows.len() == 0 ==> worst_code(rows, if_present) == 0,
        rows.len() > 0 ==> exists|i: int|
            0 <= i < rows.len() && code_of((#[trigger] rows[i]).outcome, if_present) == worst_code(
                rows,
                if_present,
            ),
    decreases rows.len(),
{
    if rows.len() > 0 {
        let front = rows.drop_last();
        law_the_exit_code_is_some_services(front, if_present);
        law_worst_row_decides_the_exit(rows, if_present);
        if worst_code(rows, if_present) == code_of(rows.last().outcome, if_present) {
            assert(rows[rows.len() - 1] == rows.last());
        } else if front.len() > 0 {
            let i = choose|i: int|
                0 <= i < front.len() && code_of((#[trigger] front[i]).outcome, if_present)
                    == worst_code(front, if_present);
            assert(rows[i] == front[i]);
        } else {
            assert(code_of(rows.last().outcome, if_present) >= 0);
        }
    }
}

/// The failure that is handed on is the first: that of a failed row before which
/// none failed.
pub proof fn law_the_first_failure_is_handed_on(rows: Seq<RowView>, i: int, error: Seq<char>)
    requires
        0 <= i < rows.len(),
        rows[i].outcome == Outcome::Failed(error),
        forall|j: int| 0 <= j < i ==> !((#[trigger] rows[j]).outcome is Failed),
    ensures
        first_failed(rows) == Some(error),
    decreases rows.len(),
{
    if i > 0 {
        let rest = rows.skip(1);
        assert(rest[i - 1] == rows[i]);
        assert forall|j: int| 0 <= j < i - 1 implies !((#[trigger] rest[j]).outcome is Failed) by {
            assert(rest[j] == rows[j + 1]);
        }
        assert(!(rows[0].outcome is Failed));
        law_the_first_failure_is_handed_on(rest, i - 1, error);
    }
}

/// The module is where the first of its places has it, and nowhere if none has.
pub proof fn law_the_first_place_has_the_module(candidates: Seq<&str>, there: Seq<bool>, i: int)
    requires
        candidates.len() == there.len(),
        0 <= i <= there.len(),
        forall|j: int| 0 <= j < i ==> !#[trigger] there[j],
    ensures
        i < there.len() && there[i] ==> first_there(candidates, there) == Some(candidates[i]@),
        i == there.len() ==> first_there(candidates, there) is None,
    decreases there.len(),
{
    if i > 0 {
        assert(!there[0]);
        assert forall|j: int| 0 <= j < i - 1 implies !#[trigger] there.skip(1)[j] by {
            assert(there[j + 1] == there.skip(1)[j]);
        }
        law_the_first_place_has_the_module(candidates.skip(1), there.skip(1), i - 1);
    }
}

/// The row of a write names the service, the file that was or would be written, the
/// outcome as it was, and a backup only of a run that was no dry run and no copy.
pub proof fn law_a_write_row_tells_of_its_file(
    target: TargetView,
    outcome: Outcome<Seq<char>>,
    dry_run: bool,
    backup_exists: bool,
)
    ensures
        ({
            let row = write_row(target, outcome, dry_run, backup_exists);
            &&& row.service == target.service
            &&& row.outcome == outcome
            &&& row.path == Some(crate::pam::plan::reported_path_of(target))
            &&& row.backup is Some <==> !dry_run && !(outcome is Overridden) && backup_exists
            &&& row.backup matches Some(b) ==> b == crate::pam::resolve::write_path_of(
                target.path,
                target.origin,
            ) + ".facelock-backup"@
        }),
{
}

/// A service's entry in the document: its name, its file, the word for its outcome,
/// its backup, and an error exactly where the outcome has one.
pub proof fn law_the_document_tells_of_each_service(row: RowView)
    ensures
        row_json(row) matches Json::Record(fields) && {
            &&& fields["service"@] == Json::Text(row.service)
            &&& fields["path"@] == (match row.path {
                Some(p) => Json::Text(p),
                None => Json::Null,
            })
            &&& fields["action"@] == Json::Text(outcome_word(row.outcome))
            &&& fields["backup"@] == (match row.backup {
                Some(b) => Json::Text(b),
                None => Json::Null,
            })
            &&& fields.dom().contains("error"@) <==> row.outcome is Failed || row.outcome is Unknown
            &&& row.outcome matches Outcome::Failed(e) ==> fields["error"@] == Json::Text(e)
            &&& row.outcome matches Outcome::Unknown(e) ==> fields["error"@] == Json::Text(e)
        },
{
    reveal_strlit("service");
    reveal_strlit("path");
    reveal_strlit("action");
    reveal_strlit("backup");
    reveal_strlit("error");
    assert("service"@.len() == 7 && "path"@.len() == 4 && "action"@.len() == 6 && "backup"@.len()
        == 6 && "error"@.len() == 5);
    assert("action"@[0] == 'a' && "backup"@[0] == 'b');
}

/// The document of an invocation: the verb, whether it was a dry run, and the
/// services in order; where the module is, of a status alone.
pub proof fn law_the_document_tells_of_the_invocation(
    action: PamAction,
    dry_run: bool,
    rows: Seq<RowView>,
    module_at: Option<Seq<char>>,
)
    ensures
        report_document(action, dry_run, rows, module_at) matches Json::Record(fields) && {
            &&& fields["command"@] == Json::Text(
                match action {
                    PamAction::Add => "add"@,
                    PamAction::Remove => "remove"@,
                    PamAction::Status => "status"@,
                },
            )
            &&& fields["dry_run"@] == Json::Bool(dry_run)
            &&& fields["services"@] matches Json::List(list) && list.len() == rows.len() && forall|
                i: int,
            |
                0 <= i < rows.len() ==> #[trigger] list[i] == row_json(rows[i])
            &&& fields.dom().contains("module_path"@) <==> action == PamAction::Status
        },
{
    reveal_strlit("command");
    reveal_strlit("dry_run");
    reveal_strlit("services");
    reveal_strlit("module_path");
    assert("command"@.len() == 7 && "dry_run"@.len() == 7 && "services"@.len() == 8
        && "module_path"@.len() == 11);
    assert("command"@[0] == 'c' && "dry_run"@[0] == 'd');
}

/// `status` answers about the file that a write would act on: a service that
/// `status` finds present is one that an addition leaves as it is.
pub proof fn law_status_agrees_with_add(
    target: TargetView,
    write: crate::pam::plan::WriteView,
    facts: crate::pam::plan::FactsView,
    sink: Sink,
)
    requires
        write.action == WriteAction::Add,
        status_of(target, facts.read, sink).1 == Outcome::<Seq<char>>::Present,
    ensures
        crate::pam::plan::planned(target, write, facts.read, facts.override_dir) == Ok::<
            TargetView,
            PamMessage<Seq<char>>,
        >(Target { plan: Plan::NoChange, ..target }),
{
}

} // verus!
