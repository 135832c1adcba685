//! Phase two: carrying out the plans, one service at a time.
//!
//! Adding and removing alternate decisions with work on files and questions to
//! the operator. Each function here is one decision: it gives the lines to
//! print and the next step, and is handed what that step came to.

use crate::pam::edit::{inserts_before_auth, with_line_inserted, with_line_removed, PAM_LINE};
use crate::pam::message::{preview_route, InsertionHint, Line, PamMessage, Route, Sink};
use crate::pam::plan::{Plan, Target, TargetView, WriteAction};
use crate::pam::resolve::Origin;
use vstd::prelude::*;
use vstd::string::*;

verus! {

/// What happened to one service.
#[derive(Debug, Clone, PartialEq, Eq)]
pub enum Outcome<S = String> {
    /// `add`: the line was written, or would be.
    Installed,
    /// `add`: a local copy of a vendor file that carries the line was created,
    /// or would be.
    Overridden,
    /// `remove`: the line was deleted, or would be.
    Removed,
    /// The service is only in a vendor directory and nothing was written.
    VendorOnly,
    /// The service was already in the requested state.
    Unchanged,
    /// The service file does not exist.
    Absent,
    /// The operator answered no.
    Declined,
    /// The write failed.
    Failed(S),
    /// `status`: the file carries a facelock line.
    Present,
    /// `status`: the file carries no facelock line.
    Missing,
    /// `status`: the question has no answer.
    Unknown(S),
}

impl View for Outcome<String> {
    type V = Outcome<Seq<char>>;

    open spec fn view(&self) -> Outcome<Seq<char>> {
        match *self {
            Outcome::Installed => Outcome::Installed,
            Outcome::Overridden => Outcome::Overridden,
            Outcome::Removed => Outcome::Removed,
            Outcome::VendorOnly => Outcome::VendorOnly,
            Outcome::Unchanged => Outcome::Unchanged,
            Outcome::Absent => Outcome::Absent,
            Outcome::Declined => Outcome::Declined,
            Outcome::Failed(e) => Outcome::Failed(e@),
            Outcome::Present => Outcome::Present,
            Outcome::Missing => Outcome::Missing,
            Outcome::Unknown(e) => Outcome::Unknown(e@),
        }
    }
}

/// What is to be done next for a service.
#[derive(Debug, Clone, PartialEq, Eq)]
pub enum Step<S = String> {
    /// Ask whether to proceed.
    Confirm,
    /// Write the backup: `content` to `path`, with the mode and owner of
    /// `model`.
    BackUp { path: S, content: S, model: S },
    /// Write the service file: `content` to `path`, with the mode and owner of
    /// `model`.
    Write { path: S, content: S, model: S },
    /// Nothing: this is what happened.
    Done(Outcome<S>),
}

impl View for Step<String> {
    type V = Step<Seq<char>>;

    open spec fn view(&self) -> Step<Seq<char>> {
        match *self {
            Step::Confirm => Step::Confirm,
            Step::BackUp { path, content, model } => Step::BackUp {
                path: path@,
                content: content@,
                model: model@,
            },
            Step::Write { path, content, model } => Step::Write {
                path: path@,
                content: content@,
                model: model@,
            },
            Step::Done(outcome) => Step::Done(outcome@),
        }
    }
}

/// Lines to print, then a step.
#[derive(Debug, Clone, PartialEq, Eq)]
pub struct Progress<S = String> {
    pub line: Option<Line<S>>,
    pub step: Step<S>,
}

impl View for Progress<String> {
    type V = Progress<Seq<char>>;

    open spec fn view(&self) -> Progress<Seq<char>> {
        Progress {
            line: match self.line {
                Some(l) => Some(l@),
                None => None,
            },
            step: self.step@,
        }
    }
}

/// Progress as contracts speak of it.
pub type ProgressView = Progress<Seq<char>>;

/// A line with its stream, then a step.
pub open spec fn say(
    route: Route,
    message: PamMessage<Seq<char>>,
    step: Step<Seq<char>>,
) -> ProgressView {
    Progress { line: Some(Line { route, message }), step }
}

/// A failure, with nothing said yet.
pub open spec fn fails(error: Seq<char>) -> ProgressView {
    Progress { line: None, step: Step::Done(Outcome::Failed(error)) }
}

fn tell(route: Route, message: PamMessage, step: Step) -> (r: Progress)
    ensures
        r@ == say(route, message@, step@),
{
    Progress { line: Some(Line { route, message }), step }
}

fn failed(error: String) -> (r: Progress)
    ensures
        r@ == fails(error@),
{
    Progress { line: None, step: Step::Done(Outcome::Failed(error)) }
}

/// Where the line will land, as a preview says it.
pub open spec fn hint_of(content: Seq<char>) -> InsertionHint {
    if crate::pam::edit::has_auth_rule(content) {
        InsertionHint::BeforeAuth
    } else {
        InsertionHint::AtTop
    }
}

/// Where the line will land, as a preview says it.
pub fn insertion_hint(content: &str) -> (r: InsertionHint)
    ensures
        r == hint_of(content@),
{
    if inserts_before_auth(content) {
        InsertionHint::BeforeAuth
    } else {
        InsertionHint::AtTop
    }
}

// ---------------------------------------------------------------------------
// Adding
// ---------------------------------------------------------------------------

/// What is written for an addition: the file with the line, below the
/// provenance header where it is a copy of a vendor file.
pub open spec fn addition(target: TargetView, header: Seq<char>) -> Seq<char> {
    match target.plan {
        Plan::Override { content } => header + crate::pam::edit::added(content),
        Plan::Rewrite { content } => crate::pam::edit::added(content),
        _ => Seq::empty(),
    }
}

/// The write of an addition.
pub open spec fn add_write(target: TargetView, header: Seq<char>) -> Step<Seq<char>> {
    Step::Write {
        path: crate::pam::resolve::write_path_of(target.path, target.origin),
        content: addition(target, header),
        model: target.path,
    }
}

/// What follows consent: an edit is backed up first, a copy has nothing to
/// back up.
pub open spec fn add_go(target: TargetView, header: Seq<char>) -> Step<Seq<char>> {
    match target.plan {
        Plan::Rewrite { content } => Step::BackUp {
            path: target.backup,
            content,
            model: target.path,
        },
        _ => add_write(target, header),
    }
}

/// How an addition begins: a service that needs no write is done; for the
/// others a preview, then the question or the work.
pub open spec fn add_begins(
    target: TargetView,
    sink: Sink,
    prompting: bool,
    header: Seq<char>,
) -> ProgressView {
    let path = crate::pam::plan::reported_path_of(target);
    let next = if prompting {
        Step::Confirm
    } else {
        add_go(target, header)
    };
    match target.plan {
        Plan::NoChange => say(
            sink.info(),
            PamMessage::PamLineAlreadyPresent { path },
            Step::Done(Outcome::Unchanged),
        ),
        Plan::Absent => say(
            sink.info(),
            PamMessage::PamServiceAbsentSkipped { path },
            Step::Done(Outcome::Absent),
        ),
        Plan::VendorOnly => say(
            sink.info(),
            PamMessage::PamVendorOnly { path },
            Step::Done(Outcome::VendorOnly),
        ),
        Plan::Override { content } => say(
            crate::pam::message::preview_to(sink.json, prompting),
            PamMessage::PamOverridePreview {
                path,
                vendor: target.path,
                line: PAM_LINE@,
                hint: hint_of(content),
            },
            next,
        ),
        Plan::Rewrite { content } => say(
            crate::pam::message::preview_to(sink.json, prompting),
            PamMessage::PamModifyPreview {
                path,
                line: PAM_LINE@,
                hint: hint_of(content),
                backup: target.backup,
            },
            next,
        ),
    }
}

/// What follows the answer to the question.
pub open spec fn add_answered_by(
    target: TargetView,
    sink: Sink,
    answer: Result<bool, Seq<char>>,
    header: Seq<char>,
) -> ProgressView {
    match answer {
        Err(error) => fails("failed to read confirmation: "@ + error),
        Ok(false) => say(
            sink.info(),
            PamMessage::PamSkippedFile { path: crate::pam::plan::reported_path_of(target) },
            Step::Done(Outcome::Declined),
        ),
        Ok(true) => Progress { line: None, step: add_go(target, header) },
    }
}

/// What follows the attempt to back up.
pub open spec fn add_backed_up_with(
    target: TargetView,
    sink: Sink,
    result: Result<(), Seq<char>>,
    header: Seq<char>,
) -> ProgressView {
    let path = crate::pam::plan::reported_path_of(target);
    match result {
        Err(error) => fails(
            "failed to back up "@ + path + " to "@ + target.backup + ": "@ + error,
        ),
        Ok(_) => say(
            sink.info(),
            PamMessage::PamBackedUp { path, backup: target.backup },
            add_write(target, header),
        ),
    }
}

/// What follows the attempt to write.
pub open spec fn add_written_with(
    target: TargetView,
    sink: Sink,
    result: Result<(), Seq<char>>,
) -> ProgressView {
    let path = crate::pam::plan::reported_path_of(target);
    match result {
        Err(error) => fails("failed to write "@ + path + ": "@ + error),
        Ok(_) => match target.plan {
            Plan::Override { .. } => say(
                sink.notice(),
                PamMessage::PamVendorOverridden {
                    path,
                    vendor: target.path,
                    service: target.service,
                },
                Step::Done(Outcome::Overridden),
            ),
            _ => say(
                sink.notice(),
                PamMessage::PamInstalled { path, backup: target.backup, service: target.service },
                Step::Done(Outcome::Installed),
            ),
        },
    }
}

/// The result of outside work with a character sequence for its error.
pub open spec fn result_view<T>(r: Result<T, String>) -> Result<T, Seq<char>> {
    match r {
        Ok(t) => Ok(t),
        Err(e) => Err(e@),
    }
}

fn add_write_step(target: &Target, header: &str) -> (r: Step)
    ensures
        r@ == add_write(target@, header@),
{
    let content = match &target.plan {
        Plan::Override { content } => {
            let mut out = String::from_str(header);
            out.append(with_line_inserted(content.as_str()).as_str());
            out
        },
        Plan::Rewrite { content } => with_line_inserted(content.as_str()),
        _ => String::new(),
    };
    Step::Write {
        path: String::from_str(target.write_path()),
        content,
        model: target.path.clone(),
    }
}

fn add_go_step(target: &Target, header: &str) -> (r: Step)
    ensures
        r@ == add_go(target@, header@),
{
    match &target.plan {
        Plan::Rewrite { content } => Step::BackUp {
            path: target.backup.clone(),
            content: content.clone(),
            model: target.path.clone(),
        },
        _ => add_write_step(target, header),
    }
}

/// How an addition begins.
pub fn add_begin(target: &Target, sink: &Sink, prompting: bool, header: &str) -> (r: Progress)
    ensures
        r@ == add_begins(target@, *sink, prompting, header@),
{
    let path = target.reported_path();
    match &target.plan {
        Plan::NoChange => tell(
            sink.info_route(),
            PamMessage::PamLineAlreadyPresent { path },
            Step::Done(Outcome::Unchanged),
        ),
        Plan::Absent => tell(
            sink.info_route(),
            PamMessage::PamServiceAbsentSkipped { path },
            Step::Done(Outcome::Absent),
        ),
        Plan::VendorOnly => tell(
            sink.info_route(),
            PamMessage::PamVendorOnly { path },
            Step::Done(Outcome::VendorOnly),
        ),
        Plan::Override { content } => {
            let next = if prompting {
                Step::Confirm
            } else {
                add_go_step(target, header)
            };
            tell(
                preview_route(sink.json, prompting),
                PamMessage::PamOverridePreview {
                    path,
                    vendor: target.path.clone(),
                    line: String::from_str(PAM_LINE),
                    hint: insertion_hint(content.as_str()),
                },
                next,
            )
        },
        Plan::Rewrite { content } => {
            let next = if prompting {
                Step::Confirm
            } else {
                add_go_step(target, header)
            };
            tell(
                preview_route(sink.json, prompting),
                PamMessage::PamModifyPreview {
                    path,
                    line: String::from_str(PAM_LINE),
                    hint: insertion_hint(content.as_str()),
                    backup: target.backup.clone(),
                },
                next,
            )
        },
    }
}

/// What follows the answer to the question whether to proceed.
pub fn add_answered(
    target: &Target,
    sink: &Sink,
    answer: Result<bool, String>,
    header: &str,
) -> (r: Progress)
    ensures
        r@ == add_answered_by(target@, *sink, result_view(answer), header@),
{
    match answer {
        Err(error) => {
            let mut m = String::from_str("failed to read confirmation: ");
            m.append(error.as_str());
            failed(m)
        },
        Ok(proceed) => if proceed {
            Progress { line: None, step: add_go_step(target, header) }
        } else {
            tell(
                sink.info_route(),
                PamMessage::PamSkippedFile { path: target.reported_path() },
                Step::Done(Outcome::Declined),
            )
        },
    }
}

/// What follows the attempt to back up.
pub fn add_backed_up(
    target: &Target,
    sink: &Sink,
    result: Result<(), String>,
    header: &str,
) -> (r: Progress)
    ensures
        r@ == add_backed_up_with(target@, *sink, result_view(result), header@),
{
    let path = target.reported_path();
    match result {
        Err(error) => {
            let mut m = String::from_str("failed to back up ");
            m.append(path.as_str());
            m.append(" to ");
            m.append(target.backup.as_str());
            m.append(": ");
            m.append(error.as_str());
            failed(m)
        },
        Ok(_) => tell(
            sink.info_route(),
            PamMessage::PamBackedUp { path, backup: target.backup.clone() },
            add_write_step(target, header),
        ),
    }
}

/// What follows the attempt to write an addition.
pub fn add_written(target: &Target, sink: &Sink, result: Result<(), String>) -> (r: Progress)
    ensures
        r@ == add_written_with(target@, *sink, result_view(result)),
{
    let path = target.reported_path();
    match result {
        Err(error) => {
            let mut m = String::from_str("failed to write ");
            m.append(path.as_str());
            m.append(": ");
            m.append(error.as_str());
            failed(m)
        },
        Ok(_) => match &target.plan {
            Plan::Override { .. } => tell(
                sink.notice_route(),
                PamMessage::PamVendorOverridden {
                    path,
                    vendor: target.path.clone(),
                    service: target.service.clone(),
                },
                Step::Done(Outcome::Overridden),
            ),
            _ => tell(
                sink.notice_route(),
                PamMessage::PamInstalled {
                    path,
                    backup: target.backup.clone(),
                    service: target.service.clone(),
                },
                Step::Done(Outcome::Installed),
            ),
        },
    }
}

// ---------------------------------------------------------------------------
// Removing
// ---------------------------------------------------------------------------

/// How a removal begins: a service that needs no write is done, the others are
/// written without question.
pub open spec fn remove_begins(target: TargetView, sink: Sink) -> ProgressView {
    let path = target.path;
    match target.plan {
        Plan::Absent => say(
            sink.info(),
            PamMessage::PamServiceAbsent { path },
            Step::Done(Outcome::Absent),
        ),
        Plan::VendorOnly | Plan::Override { .. } => say(
            sink.info(),
            PamMessage::PamVendorOnly { path },
            Step::Done(Outcome::VendorOnly),
        ),
        Plan::NoChange => say(
            sink.info(),
            PamMessage::PamNoLineFound { path },
            Step::Done(Outcome::Unchanged),
        ),
        Plan::Rewrite { content } => Progress {
            line: None,
            step: Step::Write {
                path,
                content: crate::pam::edit::removed(content),
                model: path,
            },
        },
    }
}

/// What follows the attempt to write a removal.
pub open spec fn remove_written_with(
    target: TargetView,
    sink: Sink,
    result: Result<(), Seq<char>>,
) -> ProgressView {
    match result {
        Err(error) => fails("failed to write "@ + target.path + ": "@ + error),
        Ok(_) => say(
            sink.info(),
            PamMessage::PamRemoved { path: target.path },
            Step::Done(Outcome::Removed),
        ),
    }
}

/// How a removal begins.
pub fn remove_begin(target: &Target, sink: &Sink) -> (r: Progress)
    ensures
        r@ == remove_begins(target@, *sink),
{
    let path = target.path.clone();
    match &target.plan {
        Plan::Absent => tell(
            sink.info_route(),
            PamMessage::PamServiceAbsent { path },
            Step::Done(Outcome::Absent),
        ),
        Plan::VendorOnly => tell(
            sink.info_route(),
            PamMessage::PamVendorOnly { path },
            Step::Done(Outcome::VendorOnly),
        ),
        Plan::Override { .. } => tell(
            sink.info_route(),
            PamMessage::PamVendorOnly { path },
            Step::Done(Outcome::VendorOnly),
        ),
        Plan::NoChange => tell(
            sink.info_route(),
            PamMessage::PamNoLineFound { path },
            Step::Done(Outcome::Unchanged),
        ),
        Plan::Rewrite { content } => Progress {
            line: None,
            step: Step::Write {
                path,
                content: with_line_removed(content.as_str()),
                model: target.path.clone(),
            },
        },
    }
}

/// What follows the attempt to write a removal.
pub fn remove_written(target: &Target, sink: &Sink, result: Result<(), String>) -> (r: Progress)
    ensures
        r@ == remove_written_with(target@, *sink, result_view(result)),
{
    match result {
        Err(error) => {
            let mut m = String::from_str("failed to write ");
            m.append(target.path.as_str());
            m.append(": ");
            m.append(error.as_str());
            failed(m)
        },
        Ok(_) => tell(
            sink.info_route(),
            PamMessage::PamRemoved { path: target.path.clone() },
            Step::Done(Outcome::Removed),
        ),
    }
}

/// The last line of a removal.
pub open spec fn closing_of(target: TargetView, sink: Sink, backup_exists: bool) -> Option<
    Line<Seq<char>>,
> {
    if backup_exists && (target.plan is NoChange || target.plan is Rewrite) {
        Some(
            Line {
                route: sink.info(),
                message: PamMessage::PamBackupExists {
                    path: target.path,
                    backup: crate::pam::resolve::backup_of(
                        crate::pam::resolve::write_path_of(target.path, target.origin),
                    ),
                },
            },
        )
    } else {
        None
    }
}

/// The closing line of a removal that looked at a local file: a backup from an
/// earlier addition, where there is one.
pub fn remove_closing(target: &Target, sink: &Sink, backup_exists: bool) -> (r: Option<Line>)
    ensures
        match r {
            Some(line) => closing_of(target@, *sink, backup_exists) == Some(line@),
            None => closing_of(target@, *sink, backup_exists) is None,
        },
{
    match &target.plan {
        Plan::NoChange | Plan::Rewrite { .. } => if backup_exists {
            Some(
                Line {
                    route: sink.info_route(),
                    message: PamMessage::PamBackupExists {
                        path: target.path.clone(),
                        backup: crate::pam::resolve::backup_path(target.write_path()),
                    },
                },
            )
        } else {
            None
        },
        _ => None,
    }
}

// ---------------------------------------------------------------------------
// The dry run
// ---------------------------------------------------------------------------

/// What a dry run says of a plan, and the outcome it foresees.
pub open spec fn foreseen(target: TargetView, action: WriteAction) -> (
    PamMessage<Seq<char>>,
    Outcome<Seq<char>>,
) {
    let path = crate::pam::plan::reported_path_of(target);
    match target.plan {
        Plan::Rewrite { content } => if action == WriteAction::Add {
            (PamMessage::PamPlanAdd { path, hint: hint_of(content) }, Outcome::Installed)
        } else {
            (PamMessage::PamPlanRemove { path }, Outcome::Removed)
        },
        Plan::Override { content } => (
            PamMessage::PamPlanOverride { path, vendor: target.path, hint: hint_of(content) },
            Outcome::Overridden,
        ),
        Plan::VendorOnly => (PamMessage::PamVendorOnly { path }, Outcome::VendorOnly),
        Plan::NoChange => (PamMessage::PamPlanNoChange { path }, Outcome::Unchanged),
        Plan::Absent => (PamMessage::PamPlanAbsent { path }, Outcome::Absent),
    }
}

/// What a dry run says of a plan, writing nothing, and the outcome it foresees.
pub fn report_plan(target: &Target, action: WriteAction, sink: &Sink) -> (r: (Line, Outcome))
    ensures
        r.0@ == (Line { route: sink.info(), message: foreseen(target@, action).0 }),
        r.1@ == foreseen(target@, action).1,
{
    let path = target.reported_path();
    let route = sink.info_route();
    match &target.plan {
        Plan::Rewrite { content } => if action == WriteAction::Add {
            let hint = insertion_hint(content.as_str());
            (Line { route, message: PamMessage::PamPlanAdd { path, hint } }, Outcome::Installed)
        } else {
            (Line { route, message: PamMessage::PamPlanRemove { path } }, Outcome::Removed)
        },
        Plan::Override { content } => {
            let hint = insertion_hint(content.as_str());
            let vendor = target.path.clone();
            (
                Line { route, message: PamMessage::PamPlanOverride { path, vendor, hint } },
                Outcome::Overridden,
            )
        },
        Plan::VendorOnly => (
            Line { route, message: PamMessage::PamVendorOnly { path } },
            Outcome::VendorOnly,
        ),
        Plan::NoChange => (
            Line { route, message: PamMessage::PamPlanNoChange { path } },
            Outcome::Unchanged,
        ),
        Plan::Absent => (
            Line { route, message: PamMessage::PamPlanAbsent { path } },
            Outcome::Absent,
        ),
    }
}

// ---------------------------------------------------------------------------
// Laws
// ---------------------------------------------------------------------------

/// Whether a step writes a service file.
pub open spec fn writes_service(p: ProgressView) -> bool {
    p.step is Write
}

/// An edit is only written once its backup has been: no other decision of an
/// addition leads to the write, and what is backed up is what was read.
pub proof fn law_an_edit_is_backed_up_first(
    target: TargetView,
    sink: Sink,
    prompting: bool,
    answer: Result<bool, Seq<char>>,
    backed_up: Result<(), Seq<char>>,
    header: Seq<char>,
    content: Seq<char>,
)
    requires
        target.plan == (Plan::Rewrite { content }),
    ensures
        !writes_service(add_begins(target, sink, prompting, header)),
        !writes_service(add_answered_by(target, sink, answer, header)),
        writes_service(add_backed_up_with(target, sink, backed_up, header)) <==> backed_up is Ok,
        add_begins(target, sink, false, header).step == (Step::BackUp {
            path: target.backup,
            content,
            model: target.path,
        }),
        add_answered_by(target, sink, Ok(true), header).step == (Step::BackUp {
            path: target.backup,
            content,
            model: target.path,
        }),
{
}

/// An addition with consent, whose writes succeed, leaves the file with the line:
/// an existing file is backed up as it was read and then written with the line in
/// it, under its own name and after its own model; a vendor file is copied to its
/// override, below the header, with nothing to back up. The outcome says which.
pub proof fn law_an_addition_writes_the_line(
    target: TargetView,
    sink: Sink,
    header: Seq<char>,
    content: Seq<char>,
)
    ensures
        target.plan == (Plan::Rewrite { content }) ==> {
            &&& add_begins(target, sink, false, header).step == (Step::BackUp {
                path: target.backup,
                content,
                model: target.path,
            })
            &&& add_answered_by(target, sink, Ok(true), header).step == add_begins(
                target,
                sink,
                false,
                header,
            ).step
            &&& add_backed_up_with(target, sink, Ok(()), header).step == (Step::Write {
                path: match target.origin {
                    Origin::Vendor { override_path } => override_path,
                    _ => target.path,
                },
                content: crate::pam::edit::added(content),
                model: target.path,
            })
            &&& add_written_with(target, sink, Ok(())).step == Step::Done(
                Outcome::<Seq<char>>::Installed,
            )
        },
        target.plan == (Plan::Override { content }) ==> {
            &&& add_begins(target, sink, false, header).step == (Step::Write {
                path: match target.origin {
                    Origin::Vendor { override_path } => override_path,
                    _ => target.path,
                },
                content: header + crate::pam::edit::added(content),
                model: target.path,
            })
            &&& add_answered_by(target, sink, Ok(true), header).step == add_begins(
                target,
                sink,
                false,
                header,
            ).step
            &&& add_written_with(target, sink, Ok(())).step == Step::Done(
                Outcome::<Seq<char>>::Overridden,
            )
        },
{
}

/// A removal of the line writes the file without it, in place and without a
/// question, and says so.
pub proof fn law_a_removal_writes_the_file_without_the_line(
    target: TargetView,
    sink: Sink,
    content: Seq<char>,
)
    requires
        target.plan == (Plan::Rewrite { content }),
    ensures
        remove_begins(target, sink).step == (Step::Write {
            path: target.path,
            content: crate::pam::edit::removed(content),
            model: target.path,
        }),
        remove_written_with(target, sink, Ok(())).step == Step::Done(
            Outcome::<Seq<char>>::Removed,
        ),
{
}

/// Whoever can be asked is asked, before anything is written; and a service that
/// needs no write is done at once, with the outcome that says why.
pub proof fn law_the_question_comes_first(
    target: TargetView,
    sink: Sink,
    header: Seq<char>,
    prompting: bool,
)
    ensures
        target.plan is Rewrite || target.plan is Override ==> add_begins(
            target,
            sink,
            true,
            header,
        ).step is Confirm,
        target.plan is NoChange ==> add_begins(target, sink, prompting, header).step == Step::Done(
            Outcome::<Seq<char>>::Unchanged,
        ) && remove_begins(target, sink).step == Step::Done(Outcome::<Seq<char>>::Unchanged),
        target.plan is Absent ==> add_begins(target, sink, prompting, header).step == Step::Done(
            Outcome::<Seq<char>>::Absent,
        ) && remove_begins(target, sink).step == Step::Done(Outcome::<Seq<char>>::Absent),
        target.plan is VendorOnly ==> add_begins(target, sink, prompting, header).step
            == Step::Done(Outcome::<Seq<char>>::VendorOnly) && remove_begins(target, sink).step
            == Step::Done(Outcome::<Seq<char>>::VendorOnly),
        add_answered_by(target, sink, Ok(false), header).step == Step::Done(
            Outcome::<Seq<char>>::Declined,
        ),
{
}

/// A removal that found its file ends with a word on the backup exactly where there
/// is one, and the backup is that of the file that is written to.
pub proof fn law_a_backup_left_behind_is_told_of(
    target: TargetView,
    sink: Sink,
    backup_exists: bool,
)
    ensures
        closing_of(target, sink, backup_exists) is Some <==> backup_exists && (
        target.plan is NoChange || target.plan is Rewrite),
        closing_of(target, sink, backup_exists) matches Some(line) ==> line.route == sink.info()
            && (line.message matches PamMessage::PamBackupExists { path, backup } && path
            == target.path && backup == crate::pam::resolve::backup_of(
            crate::pam::resolve::write_path_of(target.path, target.origin),
        )),
{
}

/// A write or a backup that fails is a failure of the service, in words that name
/// the file and end with the error.
pub proof fn law_a_failed_write_is_a_failure(
    target: TargetView,
    sink: Sink,
    header: Seq<char>,
    error: Seq<char>,
)
    ensures
        add_backed_up_with(target, sink, Err(error), header).step == Step::Done(
            Outcome::Failed(
                "failed to back up "@ + crate::pam::plan::reported_path_of(target) + " to "@
                    + target.backup + ": "@ + error,
            ),
        ),
        add_written_with(target, sink, Err(error)).step == Step::Done(
            Outcome::Failed(
                "failed to write "@ + crate::pam::plan::reported_path_of(target) + ": "@ + error,
            ),
        ),
        remove_written_with(target, sink, Err(error)).step == Step::Done(
            Outcome::Failed("failed to write "@ + target.path + ": "@ + error),
        ),
        add_answered_by(target, sink, Err(error), header).step == Step::Done(
            Outcome::Failed("failed to read confirmation: "@ + error),
        ),
{
}

/// A preview says where the line will land: above an `auth` rule exactly where the
/// file has one.
pub proof fn law_the_preview_says_where_the_line_lands(content: Seq<char>)
    ensures
        hint_of(content) == InsertionHint::BeforeAuth <==> exists|i: int|
            0 <= i < crate::text::lines(content).len() && crate::pam::edit::is_auth_line(
                #[trigger] crate::text::lines(content)[i],
            ),
        hint_of(content) == InsertionHint::BeforeAuth || hint_of(content) == InsertionHint::AtTop,
{
}

/// A question that is not answered with yes leads to no write of any kind.
pub proof fn law_no_consent_no_write(
    target: TargetView,
    sink: Sink,
    answer: Result<bool, Seq<char>>,
    header: Seq<char>,
)
    requires
        answer != Ok::<bool, Seq<char>>(true),
    ensures
        add_answered_by(target, sink, answer, header).step is Done,
{
}

/// Every file that an addition or a removal writes is the target's own write
/// path or its backup: a vendor file is never among them.
pub proof fn law_steps_write_only_the_target(
    target: TargetView,
    sink: Sink,
    prompting: bool,
    answer: Result<bool, Seq<char>>,
    result: Result<(), Seq<char>>,
    header: Seq<char>,
)
    requires
        target.origin is Vendor ==> !(target.plan is Rewrite),
    ensures
        step_stays(add_begins(target, sink, prompting, header).step, target),
        step_stays(add_answered_by(target, sink, answer, header).step, target),
        step_stays(add_backed_up_with(target, sink, result, header).step, target),
        step_stays(add_written_with(target, sink, result).step, target),
        step_stays(remove_begins(target, sink).step, target),
        step_stays(remove_written_with(target, sink, result).step, target),
{
}

/// Whether a step writes nothing but the target's write path or its backup.
pub open spec fn step_stays(step: Step<Seq<char>>, target: TargetView) -> bool {
    match step {
        Step::Write { path, .. } => path == crate::pam::resolve::write_path_of(
            target.path,
            target.origin,
        ),
        Step::BackUp { path, .. } => path == target.backup,
        _ => true,
    }
}

/// What an addition to an existing file writes carries the line and is undone
/// by a removal, character by character, unless its line feeds follow carriage
/// returns.
pub proof fn law_written_addition_can_be_undone(
    target: TargetView,
    header: Seq<char>,
    content: Seq<char>,
)
    requires
        target.plan == (Plan::Rewrite { content }),
        !crate::pam::edit::carries_line(content),
        crate::text::plain_endings(content),
    ensures
        crate::pam::edit::carries_line(addition(target, header)),
        crate::pam::edit::removed(addition(target, header)) == content,
{
    crate::pam::edit::law_added_file_carries_the_line(content);
    crate::pam::edit::law_remove_undoes_add(content);
}

/// A dry run foresees what the real run reports when all its writes succeed
/// and nobody declines.
pub proof fn law_dry_run_foresees_the_run(target: TargetView, action: WriteAction, sink: Sink, header: Seq<char>)
    requires
        action == WriteAction::Add ==> !(target.plan is VendorOnly),
        action == WriteAction::Remove ==> !(target.plan is Override),
    ensures
        action == WriteAction::Add ==> {
            let start = add_begins(target, sink, false, header).step;
            match start {
                Step::Done(outcome) => outcome == foreseen(target, action).1,
                _ => add_written_with(target, sink, Ok(())).step == Step::Done(
                    foreseen(target, action).1,
                ),
            }
        },
        action == WriteAction::Remove ==> {
            let start = remove_begins(target, sink).step;
            match start {
                Step::Done(outcome) => outcome == foreseen(target, action).1,
                _ => remove_written_with(target, sink, Ok(())).step == Step::Done(
                    foreseen(target, action).1,
                ),
            }
        },
{
}

} // verus!
