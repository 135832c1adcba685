//! What the writer says: its messages as data, and the stream each goes to.
//!
//! The types of this directory are generic in the text they hold, so that a
//! contract speaks of a value with character sequences in place of strings.

use vstd::prelude::*;

verus! {

/// Where the line will land, as a preview says it.
#[derive(Debug, Clone, Copy, PartialEq, Eq, Structural)]
pub enum InsertionHint {
    /// Above the first `auth` rule.
    BeforeAuth,
    /// At the very top: there is no `auth` rule.
    AtTop,
}

/// A message of the writer, to be rendered in the operator's language.
#[derive(Debug, Clone, PartialEq, Eq)]
pub enum PamMessage<S = String> {
    PamInvalidServiceName { service: S },
    PamServiceSymlinkedOutside { path: S, target: S, dir: S },
    PamServiceHardLinked { path: S, links: u64 },
    PamSensitiveRefused { service: S, remedy: S },
    PamFileNotFound { paths: S },
    PamOverrideDirUnwritable { dir: S, path: S, error: S },
    PamReadFailed { path: S, error: S },
    PamModuleNotInstalled { paths: S, path: S },
    PamRootRequired { command: S },
    PamLineAlreadyPresent { path: S },
    PamServiceAbsentSkipped { path: S },
    PamVendorOnly { path: S },
    PamOverridePreview { path: S, vendor: S, line: S, hint: InsertionHint },
    PamModifyPreview { path: S, line: S, hint: InsertionHint, backup: S },
    PamSkippedFile { path: S },
    PamBackedUp { path: S, backup: S },
    PamVendorOverridden { path: S, vendor: S, service: S },
    PamInstalled { path: S, backup: S, service: S },
    PamServiceAbsent { path: S },
    PamNoLineFound { path: S },
    PamRemoved { path: S },
    PamBackupExists { path: S, backup: S },
    PamPlanAdd { path: S, hint: InsertionHint },
    PamPlanRemove { path: S },
    PamPlanOverride { path: S, vendor: S, hint: InsertionHint },
    PamPlanNoChange { path: S },
    PamPlanAbsent { path: S },
    PamConfigureFailed { service: S, error: S },
    PamExtensionHint { line: S },
    PamStatusPresent { path: S },
    PamStatusVendorOnly { path: S },
    PamStatusMissing { path: S },
    PamStatusAbsent { paths: S },
    PamStatusUnknown { path: S, error: S },
}

impl View for PamMessage<String> {
    type V = PamMessage<Seq<char>>;

    open spec fn view(&self) -> PamMessage<Seq<char>> {
        match *self {
            PamMessage::PamInvalidServiceName { service } => PamMessage::PamInvalidServiceName {
                service: service@,
            },
            PamMessage::PamServiceSymlinkedOutside { path, target, dir } =>
                PamMessage::PamServiceSymlinkedOutside {
                path: path@,
                target: target@,
                dir: dir@,
            },
            PamMessage::PamServiceHardLinked { path, links } => PamMessage::PamServiceHardLinked {
                path: path@,
                links,
            },
            PamMessage::PamSensitiveRefused { service, remedy } =>
                PamMessage::PamSensitiveRefused { service: service@, remedy: remedy@ },
            PamMessage::PamFileNotFound { paths } => PamMessage::PamFileNotFound { paths: paths@ },
            PamMessage::PamOverrideDirUnwritable { dir, path, error } =>
                PamMessage::PamOverrideDirUnwritable { dir: dir@, path: path@, error: error@ },
            PamMessage::PamReadFailed { path, error } => PamMessage::PamReadFailed {
                path: path@,
                error: error@,
            },
            PamMessage::PamModuleNotInstalled { paths, path } =>
                PamMessage::PamModuleNotInstalled { paths: paths@, path: path@ },
            PamMessage::PamRootRequired { command } => PamMessage::PamRootRequired {
                command: command@,
            },
            PamMessage::PamLineAlreadyPresent { path } => PamMessage::PamLineAlreadyPresent {
                path: path@,
            },
            PamMessage::PamServiceAbsentSkipped { path } => PamMessage::PamServiceAbsentSkipped {
                path: path@,
            },
            PamMessage::PamVendorOnly { path } => PamMessage::PamVendorOnly { path: path@ },
            PamMessage::PamOverridePreview { path, vendor, line, hint } =>
                PamMessage::PamOverridePreview {
                path: path@,
                vendor: vendor@,
                line: line@,
                hint,
            },
            PamMessage::PamModifyPreview { path, line, hint, backup } =>
                PamMessage::PamModifyPreview {
                path: path@,
                line: line@,
                hint,
                backup: backup@,
            },
            PamMessage::PamSkippedFile { path } => PamMessage::PamSkippedFile { path: path@ },
            PamMessage::PamBackedUp { path, backup } => PamMessage::PamBackedUp {
                path: path@,
                backup: backup@,
            },
            PamMessage::PamVendorOverridden { path, vendor, service } =>
                PamMessage::PamVendorOverridden {
                path: path@,
                vendor: vendor@,
                service: service@,
            },
            PamMessage::PamInstalled { path, backup, service } => PamMessage::PamInstalled {
                path: path@,
                backup: backup@,
                service: service@,
            },
            PamMessage::PamServiceAbsent { path } => PamMessage::PamServiceAbsent { path: path@ },
            PamMessage::PamNoLineFound { path } => PamMessage::PamNoLineFound { path: path@ },
            PamMessage::PamRemoved { path } => PamMessage::PamRemoved { path: path@ },
            PamMessage::PamBackupExists { path, backup } => PamMessage::PamBackupExists {
                path: path@,
                backup: backup@,
            },
            PamMessage::PamPlanAdd { path, hint } => PamMessage::PamPlanAdd { path: path@, hint },
            PamMessage::PamPlanRemove { path } => PamMessage::PamPlanRemove { path: path@ },
            PamMessage::PamPlanOverride { path, vendor, hint } => PamMessage::PamPlanOverride {
                path: path@,
                vendor: vendor@,
                hint,
            },
            PamMessage::PamPlanNoChange { path } => PamMessage::PamPlanNoChange { path: path@ },
            PamMessage::PamPlanAbsent { path } => PamMessage::PamPlanAbsent { path: path@ },
            PamMessage::PamConfigureFailed { service, error } => PamMessage::PamConfigureFailed {
                service: service@,
                error: error@,
            },
            PamMessage::PamExtensionHint { line } => PamMessage::PamExtensionHint { line: line@ },
            PamMessage::PamStatusPresent { path } => PamMessage::PamStatusPresent { path: path@ },
            PamMessage::PamStatusVendorOnly { path } => PamMessage::PamStatusVendorOnly {
                path: path@,
            },
            PamMessage::PamStatusMissing { path } => PamMessage::PamStatusMissing { path: path@ },
            PamMessage::PamStatusAbsent { paths } => PamMessage::PamStatusAbsent { paths: paths@ },
            PamMessage::PamStatusUnknown { path, error } => PamMessage::PamStatusUnknown {
                path: path@,
                error: error@,
            },
        }
    }
}

/// Which stream a line of human text goes to.
#[derive(Debug, Clone, Copy, PartialEq, Eq, Structural)]
pub enum Route {
    /// Standard output, silenced by `--quiet`. Ordinary progress.
    Info,
    /// Standard output, which `--quiet` does not reach.
    Notice,
    /// Standard error, never silenced.
    Error,
    /// Nothing is printed: the `--json` document carries the same fact.
    Dropped,
}

/// Where an invocation's human text goes.
#[derive(Debug, Clone, Copy, PartialEq, Eq, Structural)]
pub struct Sink {
    /// The human rendering is replaced by a document.
    pub json: bool,
    /// Whether a failed service is reported here, rather than by the caller
    /// that is handed the failure.
    pub report_failures: bool,
}

impl Sink {
    /// The verb's sink.
    pub open spec fn of_verb(json: bool) -> Sink {
        Sink { json, report_failures: true }
    }

    /// The sink of a caller without `--json` that hands its failures back.
    pub open spec fn of_people() -> Sink {
        Sink { json: false, report_failures: false }
    }

    /// The verb's sink.
    pub fn verb(json: bool) -> (r: Self)
        ensures
            r == Sink::of_verb(json),
    {
        Sink { json, report_failures: true }
    }

    /// The sink of a caller without `--json` that hands its failures back.
    pub fn human() -> (r: Self)
        ensures
            r == Sink::of_people(),
    {
        Sink { json: false, report_failures: false }
    }

    /// Where ordinary progress goes.
    pub open spec fn info(self) -> Route {
        if self.json {
            Route::Dropped
        } else {
            Route::Info
        }
    }

    /// Where a line that `--quiet` must not take goes.
    pub open spec fn notice(self) -> Route {
        if self.json {
            Route::Dropped
        } else {
            Route::Notice
        }
    }

    /// Where ordinary progress goes: standard output, unless a document is
    /// written there.
    pub fn info_route(&self) -> (r: Route)
        ensures
            r == self.info(),
    {
        if self.json {
            Route::Dropped
        } else {
            Route::Info
        }
    }

    /// Where a line that must be seen and stay on standard output goes.
    pub fn notice_route(&self) -> (r: Route)
        ensures
            r == self.notice(),
    {
        if self.json {
            Route::Dropped
        } else {
            Route::Notice
        }
    }
}

/// Where the preview before a confirmation goes.
pub open spec fn preview_to(json: bool, prompting: bool) -> Route {
    match (json, prompting) {
        (false, false) => Route::Info,
        (false, true) => Route::Notice,
        (true, false) => Route::Dropped,
        (true, true) => Route::Error,
    }
}

/// Where the preview before a confirmation goes. A question that will be asked
/// keeps its context: it is never a line that `--quiet` silences.
pub fn preview_route(json: bool, prompting: bool) -> (r: Route)
    ensures
        r == preview_to(json, prompting),
{
    match (json, prompting) {
        (false, false) => Route::Info,
        (false, true) => Route::Notice,
        (true, false) => Route::Dropped,
        (true, true) => Route::Error,
    }
}

/// Whether a question is asked.
pub open spec fn is_asked(no_confirm: bool, stdin_is_tty: bool, stderr_is_tty: bool) -> bool {
    !no_confirm && stdin_is_tty && stderr_is_tty
}

/// Whether the confirmation can be asked: it was not waived, and both streams
/// that the question uses are a terminal.
pub fn should_prompt(no_confirm: bool, stdin_is_tty: bool, stderr_is_tty: bool) -> (r: bool)
    ensures
        r == is_asked(no_confirm, stdin_is_tty, stderr_is_tty),
{
    !no_confirm && stdin_is_tty && stderr_is_tty
}

/// One line of human text with its stream.
#[derive(Debug, Clone, PartialEq, Eq)]
pub struct Line<S = String> {
    pub route: Route,
    pub message: PamMessage<S>,
}

impl View for Line<String> {
    type V = Line<Seq<char>>;

    open spec fn view(&self) -> Line<Seq<char>> {
        Line { route: self.route, message: self.message@ }
    }
}

/// The lines with character sequences for strings.
pub open spec fn lines_view(lines: Seq<Line>) -> Seq<Line<Seq<char>>> {
    lines.map_values(|l: Line| l@)
}

// ---------------------------------------------------------------------------
// Laws
// ---------------------------------------------------------------------------

/// A question is asked exactly of someone who did not waive it, who can see it and
/// who can answer it.
pub proof fn law_only_who_sees_and_answers_is_asked(
    no_confirm: bool,
    stdin_is_tty: bool,
    stderr_is_tty: bool,
)
    ensures
        is_asked(no_confirm, stdin_is_tty, stderr_is_tty) <==> !no_confirm && stdin_is_tty
            && stderr_is_tty,
        is_asked(no_confirm, stdin_is_tty, stderr_is_tty) ==> is_asked(false, true, true),
{
}

/// The verb says its own failures and writes a document exactly if it is asked to;
/// a caller who handles failures is told of none and gets no document.
pub proof fn law_the_verb_says_its_failures(json: bool)
    ensures
        Sink::of_verb(json).report_failures,
        Sink::of_verb(json).json == json,
        !Sink::of_people().report_failures,
        !Sink::of_people().json,
        Sink::of_people().info() == Route::Info,
{
}

/// The context of a question that will be asked is always seen: no flag drops
/// or silences it.
pub proof fn law_a_question_keeps_its_context(json: bool)
    ensures
        preview_to(json, true) == Route::Notice || preview_to(json, true) == Route::Error,
        preview_to(true, true) == Route::Error,
{
}

/// Without a document, progress goes to standard output, what must be seen stays
/// visible under `--quiet`, and a preview nobody is asked about is progress.
pub proof fn law_without_a_document_people_are_told(report_failures: bool)
    ensures
        ({
            let sink = Sink { json: false, report_failures };
            &&& sink.info() == Route::Info
            &&& sink.notice() == Route::Notice
            &&& preview_to(false, false) == Route::Info
            &&& preview_to(false, true) == Route::Notice
            &&& preview_to(true, false) == Route::Dropped
        }),
{
}

/// While a document is written, standard output carries no human text.
pub proof fn law_json_owns_standard_output(report_failures: bool, prompting: bool)
    ensures
        ({
            let sink = Sink { json: true, report_failures };
            &&& sink.info() == Route::Dropped
            &&& sink.notice() == Route::Dropped
            &&& preview_to(true, prompting) == Route::Dropped || preview_to(true, prompting)
                == Route::Error
        }),
{
}

} // verus!
