//! The purge of everything that is retained: what authorizes it, the order in
//! which it runs, and what its report may claim.
//!
//! A run that retained anything does not read as complete, and no run claims
//! that removing names erases media.

use crate::ipc_client::require_root_scripted;
use crate::json::{boolean, list, null, optional_text, put, record, render, text, Json};
use crate::message::PurgeMessage;
use crate::text::{chars_of, same, string_of};
use vstd::prelude::*;
use vstd::string::*;

verus! {

// ---------------------------------------------------------------------------
// The request
// ---------------------------------------------------------------------------

/// What `facelock data purge` was asked to do.
#[derive(Debug, Clone, PartialEq, Eq)]
pub struct PurgeRequest {
    /// The destruction authorization. Never set by `--yes` or `--json`.
    pub allow_destruction: bool,
    /// Confirmation prompt suppressed (`--yes`, or implied by `--json`).
    pub no_confirm: bool,
    /// Report only; delete nothing, take no lease.
    pub dry_run: bool,
    /// Keep the daemon stopped and activation barred after purging.
    pub leave_activation_barred: bool,
    /// Emit the machine document instead of the human report.
    pub json: bool,
}

impl Default for PurgeRequest {
    fn default() -> (r: Self)
        ensures
            r == (PurgeRequest {
                allow_destruction: false,
                no_confirm: false,
                dry_run: false,
                leave_activation_barred: false,
                json: false,
            }),
    {
        PurgeRequest {
            allow_destruction: false,
            no_confirm: false,
            dry_run: false,
            leave_activation_barred: false,
            json: false,
        }
    }
}

/// What a purge does next.
#[derive(Debug)]
pub enum PurgeStep<S = String> {
    /// The caller is not root.
    Refuse { message: S },
    /// Say the header, look at what there is, report it, and stop.
    ReportOnly { header: Option<PurgeMessage<S>> },
    /// Fail with the message.
    Fail(PurgeMessage<S>),
    /// Ask the question.
    Confirm(PurgeMessage<S>),
    /// Say the message, and leave everything as it is.
    Leave(PurgeMessage<S>),
    /// Take the lease: the daemon is stopped and cannot be activated. Then
    /// purge, and say so to the lease before anything else.
    Purge,
}

impl View for PurgeStep<String> {
    type V = PurgeStep<Seq<char>>;

    open spec fn view(&self) -> PurgeStep<Seq<char>> {
        match *self {
            PurgeStep::Refuse { message } => PurgeStep::Refuse { message: message@ },
            PurgeStep::ReportOnly { header } => PurgeStep::ReportOnly {
                header: match header {
                    Some(h) => Some(h@),
                    None => None,
                },
            },
            PurgeStep::Fail(m) => PurgeStep::Fail(m@),
            PurgeStep::Confirm(m) => PurgeStep::Confirm(m@),
            PurgeStep::Leave(m) => PurgeStep::Leave(m@),
            PurgeStep::Purge => PurgeStep::Purge,
        }
    }
}

/// How a purge begins.
pub open spec fn first_step(request: PurgeRequest, is_root: bool) -> PurgeStep<Seq<char>> {
    if !is_root {
        PurgeStep::Refuse {
            message: crate::ipc_client::root_refusal("sudo facelock data purge"@),
        }
    } else if request.dry_run {
        PurgeStep::ReportOnly {
            header: if request.json {
                None
            } else {
                Some(PurgeMessage::DryRunHeader)
            },
        }
    } else if !request.allow_destruction {
        PurgeStep::Fail(PurgeMessage::DestructionNotAuthorized)
    } else if !request.no_confirm {
        PurgeStep::Confirm(PurgeMessage::ConfirmPurge)
    } else {
        PurgeStep::Purge
    }
}

/// What follows the answer to the question.
pub open spec fn after_answer(confirmed: bool) -> PurgeStep<Seq<char>> {
    if confirmed {
        PurgeStep::Purge
    } else {
        PurgeStep::Leave(PurgeMessage::Cancelled)
    }
}

/// How a purge begins: root first, then the dry run, which needs no
/// authorization, then the authorization, then the question.
pub fn begin(request: &PurgeRequest, is_root: bool) -> (r: PurgeStep)
    ensures
        r@ == first_step(*request, is_root),
{
    if let Err(message) = require_root_scripted("sudo facelock data purge", is_root) {
        return PurgeStep::Refuse { message };
    }
    if request.dry_run {
        return PurgeStep::ReportOnly {
            header: if request.json {
                None
            } else {
                Some(PurgeMessage::DryRunHeader)
            },
        };
    }
    if !request.allow_destruction {
        return PurgeStep::Fail(PurgeMessage::DestructionNotAuthorized);
    }
    if !request.no_confirm {
        return PurgeStep::Confirm(PurgeMessage::ConfirmPurge);
    }
    PurgeStep::Purge
}

/// The question was answered.
pub fn answered(confirmed: bool) -> (r: PurgeStep)
    ensures
        r@ == after_answer(confirmed),
{
    if confirmed {
        PurgeStep::Purge
    } else {
        PurgeStep::Leave(PurgeMessage::Cancelled)
    }
}

// ---------------------------------------------------------------------------
// The report
// ---------------------------------------------------------------------------

/// A name that was removed.
#[derive(Debug, Clone, PartialEq, Eq)]
pub struct Removed<S = String> {
    pub logical: S,
    /// The engine's word for what it was.
    pub kind: S,
}

/// Why something was retained.
#[derive(Debug, Clone, PartialEq, Eq)]
pub enum RemnantKind<S = String> {
    /// The run was interrupted before it got there.
    Interrupted,
    SymbolicLink,
    /// Another reason, by the engine's word for it.
    Other(S),
}

/// The word for a reason.
pub open spec fn kind_word(kind: RemnantKind<Seq<char>>) -> Seq<char> {
    match kind {
        RemnantKind::Interrupted => "interrupted"@,
        RemnantKind::SymbolicLink => "symbolic_link"@,
        RemnantKind::Other(word) => word,
    }
}

impl RemnantKind<String> {
    /// The word for the reason.
    pub fn word(&self) -> (r: &str)
        ensures
            r@ == kind_word(self@),
    {
        match self {
            RemnantKind::Interrupted => "interrupted",
            RemnantKind::SymbolicLink => "symbolic_link",
            RemnantKind::Other(word) => word.as_str(),
        }
    }
}

/// Something inside the roots that was retained.
#[derive(Debug, Clone, PartialEq, Eq)]
pub struct Remnant<S = String> {
    pub logical: S,
    pub kind: RemnantKind<S>,
    pub detail: S,
}

/// A configured path outside the roots, which is never touched.
#[derive(Debug, Clone, PartialEq, Eq)]
pub struct ExternalRemnant<S = String> {
    pub field: S,
    pub path: S,
}

/// What a run came to.
#[derive(Debug)]
pub struct PurgeReport {
    pub removed: Vec<Removed>,
    pub remnants: Vec<Remnant>,
    pub external: Vec<ExternalRemnant>,
    /// Why the configuration could not be classified.
    pub config_note: Option<String>,
}

/// How the daemon was left.
#[derive(Debug, Clone, PartialEq, Eq)]
pub enum Lifecycle<S = String> {
    /// As it was before.
    Restored,
    /// The barrier is still in place at this path.
    Barred(S),
}

/// A report with sequences in place of vectors and strings.
pub struct ReportView {
    pub removed: Seq<Removed<Seq<char>>>,
    pub remnants: Seq<Remnant<Seq<char>>>,
    pub external: Seq<ExternalRemnant<Seq<char>>>,
    pub config_note: Option<Seq<char>>,
}

impl View for Removed<String> {
    type V = Removed<Seq<char>>;

    open spec fn view(&self) -> Removed<Seq<char>> {
        Removed { logical: self.logical@, kind: self.kind@ }
    }
}

impl View for RemnantKind<String> {
    type V = RemnantKind<Seq<char>>;

    open spec fn view(&self) -> RemnantKind<Seq<char>> {
        match *self {
            RemnantKind::Interrupted => RemnantKind::Interrupted,
            RemnantKind::SymbolicLink => RemnantKind::SymbolicLink,
            RemnantKind::Other(word) => RemnantKind::Other(word@),
        }
    }
}

impl View for Remnant<String> {
    type V = Remnant<Seq<char>>;

    open spec fn view(&self) -> Remnant<Seq<char>> {
        Remnant {
            logical: self.logical@,
            kind: self.kind@,
            detail: self.detail@,
        }
    }
}

impl View for ExternalRemnant<String> {
    type V = ExternalRemnant<Seq<char>>;

    open spec fn view(&self) -> ExternalRemnant<Seq<char>> {
        ExternalRemnant { field: self.field@, path: self.path@ }
    }
}

impl View for Lifecycle<String> {
    type V = Lifecycle<Seq<char>>;

    open spec fn view(&self) -> Lifecycle<Seq<char>> {
        match *self {
            Lifecycle::Restored => Lifecycle::Restored,
            Lifecycle::Barred(path) => Lifecycle::Barred(path@),
        }
    }
}

impl View for PurgeReport {
    type V = ReportView;

    open spec fn view(&self) -> ReportView {
        ReportView {
            removed: self.removed@.map_values(|r: Removed| r@),
            remnants: self.remnants@.map_values(|r: Remnant| r@),
            external: self.external@.map_values(|e: ExternalRemnant| e@),
            config_note: crate::text::opt_text(self.config_note),
        }
    }
}

/// Whether nothing was retained and the configuration was understood.
pub open spec fn complete(report: ReportView) -> bool {
    report.remnants.len() == 0 && report.external.len() == 0 && report.config_note is None
}

/// Whether the run was cut short: something was retained because of an
/// interruption, and is reported under that word.
pub open spec fn cut_short(report: ReportView) -> bool {
    exists|i: int|
        0 <= i < report.remnants.len() && kind_word((#[trigger] report.remnants[i]).kind)
            == "interrupted"@
}

impl PurgeReport {
    /// Whether nothing was retained and the configuration was understood.
    pub fn is_complete(&self) -> (r: bool)
        ensures
            r == complete(self@),
    {
        self.remnants.len() == 0 && self.external.len() == 0 && self.config_note.is_none()
    }
}

/// Whether the run was cut short, as opposed to refusing single objects.
pub fn interrupted(report: &PurgeReport) -> (r: bool)
    ensures
        r == cut_short(report@),
{
    let mut i: usize = 0;
    while i < report.remnants.len()
        invariant
            i <= report.remnants.len(),
            forall|j: int|
                0 <= j < i ==> kind_word((#[trigger] report@.remnants[j]).kind) != "interrupted"@,
        decreases report.remnants.len() - i,
    {
        assert(report@.remnants[i as int].kind == report.remnants[i as int].kind@);
        if same(report.remnants[i].kind.word(), "interrupted") {
            return true;
        }
        i += 1;
    }
    false
}

// ---------------------------------------------------------------------------
// Text for a terminal
// ---------------------------------------------------------------------------

/// Whether a character controls a terminal.
pub open spec fn is_control(c: char) -> bool {
    (c as u32) < 32 || 127 <= (c as u32) < 160
}

/// A hexadecimal digit.
pub open spec fn hex_digit(n: nat) -> char {
    if n < 10 {
        (('0' as u8) + n) as char
    } else {
        (('a' as u8) + (n - 10)) as char
    }
}

/// A character as a terminal may see it.
pub open spec fn shown_char(c: char) -> Seq<char> {
    if is_control(c) {
        seq!['\\', 'x', hex_digit((c as u32) as nat / 16), hex_digit((c as u32) as nat % 16)]
    } else {
        seq![c]
    }
}

/// A text as a terminal may see it.
pub open spec fn sanitized(s: Seq<char>) -> Seq<char>
    decreases s.len(),
{
    if s.len() == 0 {
        Seq::empty()
    } else {
        sanitized(s.drop_last()) + shown_char(s.last())
    }
}

fn hex_char(n: u32) -> (r: char)
    requires
        n < 16,
    ensures
        r == hex_digit(n as nat),
{
    if n < 10 {
        (('0' as u8) + n as u8) as char
    } else {
        (('a' as u8) + (n - 10) as u8) as char
    }
}

/// A text as a terminal may see it: control characters are spelled out.
pub fn sanitize_for_display(s: &str) -> (r: String)
    ensures
        r@ == sanitized(s@),
{
    let v = chars_of(s);
    let mut out: Vec<char> = Vec::new();
    let mut i: usize = 0;
    while i < v.len()
        invariant
            i <= v.len(),
            v@ == s@,
            out@ == sanitized(s@.take(i as int)),
        decreases v.len() - i,
    {
        let ghost before = out@;
        assert(s@.take(i as int + 1).drop_last() =~= s@.take(i as int));
        let code: u32 = v[i] as u32;
        if code < 32 || (127 <= code && code < 160) {
            out.push('\\');
            out.push('x');
            out.push(hex_char(code / 16));
            out.push(hex_char(code % 16));
        } else {
            out.push(v[i]);
        }
        assert(out@ =~= before + shown_char(v[i as int]));
        i += 1;
    }
    assert(s@.take(v.len() as int) =~= s@);
    string_of(&out)
}

// ---------------------------------------------------------------------------
// The report for people
// ---------------------------------------------------------------------------

/// The line of a remnant.
pub open spec fn remnant_line(r: Remnant<Seq<char>>) -> PurgeMessage<Seq<char>> {
    PurgeMessage::RemnantLine { logical: sanitized(r.logical), detail: sanitized(r.detail) }
}

/// The line of a path outside the roots.
pub open spec fn external_line(e: ExternalRemnant<Seq<char>>) -> PurgeMessage<Seq<char>> {
    PurgeMessage::ExternalLine { field: sanitized(e.field), path: sanitized(e.path) }
}

/// What was removed.
pub open spec fn removed_part(report: ReportView) -> Seq<PurgeMessage<Seq<char>>> {
    if report.removed.len() == 0 {
        seq![PurgeMessage::NothingRemoved]
    } else {
        seq![PurgeMessage::RemovedCount { count: report.removed.len() as u64 }]
    }
}

/// Whether the run was cut short.
pub open spec fn interrupted_part(report: ReportView) -> Seq<PurgeMessage<Seq<char>>> {
    if cut_short(report) {
        seq![PurgeMessage::Interrupted]
    } else {
        Seq::empty()
    }
}

/// What was retained inside the roots.
pub open spec fn remnants_part(report: ReportView) -> Seq<PurgeMessage<Seq<char>>> {
    if report.remnants.len() == 0 {
        Seq::empty()
    } else {
        seq![PurgeMessage::RemnantsHeader { count: report.remnants.len() as u64 }]
            + report.remnants.map_values(|r: Remnant<Seq<char>>| remnant_line(r))
    }
}

/// What lies outside the roots.
pub open spec fn external_part(report: ReportView) -> Seq<PurgeMessage<Seq<char>>> {
    if report.external.len() == 0 {
        Seq::empty()
    } else {
        seq![PurgeMessage::ExternalHeader { count: report.external.len() as u64 }]
            + report.external.map_values(|e: ExternalRemnant<Seq<char>>| external_line(e))
    }
}

/// What there is to say of the configuration.
pub open spec fn note_part(report: ReportView) -> Seq<PurgeMessage<Seq<char>>> {
    match report.config_note {
        Some(reason) => seq![PurgeMessage::ConfigNote { reason: sanitized(reason) }],
        None => Seq::empty(),
    }
}

/// The verdict, and the caveat that stands under every one.
pub open spec fn verdict_part(report: ReportView) -> Seq<PurgeMessage<Seq<char>>> {
    seq![
        if complete(report) {
            PurgeMessage::CompleteWithinRoots
        } else {
            PurgeMessage::NotComplete
        },
        PurgeMessage::ErasureCaveat,
    ]
}

/// How the daemon was left; nothing where no lease was held.
pub open spec fn lifecycle_part(lifecycle: Option<Lifecycle<Seq<char>>>) -> Seq<
    PurgeMessage<Seq<char>>,
> {
    match lifecycle {
        Some(Lifecycle::Restored) => seq![PurgeMessage::DaemonRestored],
        Some(Lifecycle::Barred(path)) => seq![PurgeMessage::ActivationLeftBarred { path }],
        None => Seq::empty(),
    }
}

/// The whole report for people.
pub open spec fn messages(report: ReportView, lifecycle: Option<Lifecycle<Seq<char>>>) -> Seq<
    PurgeMessage<Seq<char>>,
> {
    removed_part(report) + interrupted_part(report) + remnants_part(report) + external_part(report)
        + note_part(report) + verdict_part(report) + lifecycle_part(lifecycle)
}

/// The messages with sequences in place of strings.
pub open spec fn said(messages: Seq<PurgeMessage>) -> Seq<PurgeMessage<Seq<char>>> {
    messages.map_values(|m: PurgeMessage| m@)
}

/// How the daemon was left, with a sequence in place of the string.
pub open spec fn lifecycle_view(l: Option<Lifecycle>) -> Option<Lifecycle<Seq<char>>> {
    match l {
        Some(lifecycle) => Some(lifecycle@),
        None => None,
    }
}

fn push_message(out: &mut Vec<PurgeMessage>, message: PurgeMessage)
    ensures
        said(final(out)@) == said(old(out)@).push(message@),
{
    out.push(message);
    assert(said(out@) =~= said(old(out)@).push(message@));
}

fn push_remnants(out: &mut Vec<PurgeMessage>, report: &PurgeReport)
    ensures
        said(final(out)@) == said(old(out)@) + remnants_part(report@),
{
    let ghost start = said(out@);
    let ghost rows = report@.remnants;
    if report.remnants.len() > 0 {
        push_message(
            out,
            PurgeMessage::RemnantsHeader { count: report.remnants.len() as u64 },
        );
        let ghost top = said(out@);
        let mut i: usize = 0;
        assert(top =~= top + rows.take(0).map_values(|r: Remnant<Seq<char>>| remnant_line(r)));
        while i < report.remnants.len()
            invariant
                i <= report.remnants.len(),
                rows == report@.remnants,
                said(out@) == top + rows.take(i as int).map_values(
                    |r: Remnant<Seq<char>>| remnant_line(r),
                ),
            decreases report.remnants.len() - i,
        {
            push_message(
                out,
                PurgeMessage::RemnantLine {
                    logical: sanitize_for_display(report.remnants[i].logical.as_str()),
                    detail: sanitize_for_display(report.remnants[i].detail.as_str()),
                },
            );
            assert(rows[i as int] == report.remnants[i as int]@);
            i += 1;
            assert(said(out@) =~= top + rows.take(i as int).map_values(
                |r: Remnant<Seq<char>>| remnant_line(r),
            ));
        }
        assert(rows.take(rows.len() as int) =~= rows);
        assert(said(out@) =~= start + remnants_part(report@));
    } else {
        assert(said(out@) =~= start + remnants_part(report@));
    }
}

fn push_external(out: &mut Vec<PurgeMessage>, report: &PurgeReport)
    ensures
        said(final(out)@) == said(old(out)@) + external_part(report@),
{
    let ghost start = said(out@);
    let ghost rows = report@.external;
    if report.external.len() > 0 {
        push_message(
            out,
            PurgeMessage::ExternalHeader { count: report.external.len() as u64 },
        );
        let ghost top = said(out@);
        let mut i: usize = 0;
        assert(top =~= top + rows.take(0).map_values(
            |e: ExternalRemnant<Seq<char>>| external_line(e),
        ));
        while i < report.external.len()
            invariant
                i <= report.external.len(),
                rows == report@.external,
                said(out@) == top + rows.take(i as int).map_values(
                    |e: ExternalRemnant<Seq<char>>| external_line(e),
                ),
            decreases report.external.len() - i,
        {
            push_message(
                out,
                PurgeMessage::ExternalLine {
                    field: sanitize_for_display(report.external[i].field.as_str()),
                    path: sanitize_for_display(report.external[i].path.as_str()),
                },
            );
            assert(rows[i as int] == report.external[i as int]@);
            i += 1;
            assert(said(out@) =~= top + rows.take(i as int).map_values(
                |e: ExternalRemnant<Seq<char>>| external_line(e),
            ));
        }
        assert(rows.take(rows.len() as int) =~= rows);
        assert(said(out@) =~= start + external_part(report@));
    } else {
        assert(said(out@) =~= start + external_part(report@));
    }
}

/// The report for people. `lifecycle` is there only where a lease was held.
pub fn render_report(report: &PurgeReport, lifecycle: &Option<Lifecycle>) -> (r: Vec<PurgeMessage>)
    ensures
        said(r@) == messages(report@, lifecycle_view(*lifecycle)),
{
    let mut out: Vec<PurgeMessage> = Vec::new();
    assert(said(out@) =~= Seq::empty());
    if report.removed.len() == 0 {
        push_message(&mut out, PurgeMessage::NothingRemoved);
    } else {
        push_message(&mut out, PurgeMessage::RemovedCount { count: report.removed.len() as u64 });
    }
    assert(said(out@) =~= removed_part(report@));
    let ghost done = said(out@);
    if interrupted(report) {
        push_message(&mut out, PurgeMessage::Interrupted);
    }
    assert(said(out@) =~= done + interrupted_part(report@));
    push_remnants(&mut out, report);
    push_external(&mut out, report);
    let ghost done = said(out@);
    if let Some(reason) = &report.config_note {
        push_message(
            &mut out,
            PurgeMessage::ConfigNote { reason: sanitize_for_display(reason.as_str()) },
        );
    }
    assert(said(out@) =~= done + note_part(report@));
    let ghost done = said(out@);
    if report.is_complete() {
        push_message(&mut out, PurgeMessage::CompleteWithinRoots);
    } else {
        push_message(&mut out, PurgeMessage::NotComplete);
    }
    push_message(&mut out, PurgeMessage::ErasureCaveat);
    assert(said(out@) =~= done + verdict_part(report@));
    let ghost done = said(out@);
    match lifecycle {
        Some(Lifecycle::Restored) => {
            push_message(&mut out, PurgeMessage::DaemonRestored);
        },
        Some(Lifecycle::Barred(path)) => {
            push_message(&mut out, PurgeMessage::ActivationLeftBarred { path: path.clone() });
        },
        None => {},
    }
    assert(said(out@) =~= done + lifecycle_part(lifecycle_view(*lifecycle)));
    out
}

// ---------------------------------------------------------------------------
// The report for programs
// ---------------------------------------------------------------------------

/// A removed name as the document has it.
pub open spec fn removed_document(r: Removed<Seq<char>>) -> Json {
    Json::Record(
        Map::empty().insert("logical"@, Json::Text(r.logical)).insert("kind"@, Json::Text(r.kind)),
    )
}

/// A remnant as the document has it.
pub open spec fn remnant_document(r: Remnant<Seq<char>>) -> Json {
    Json::Record(
        Map::empty().insert("logical"@, Json::Text(r.logical)).insert(
            "kind"@,
            Json::Text(kind_word(r.kind)),
        ).insert("detail"@, Json::Text(r.detail)),
    )
}

/// A path outside the roots as the document has it.
pub open spec fn external_document(e: ExternalRemnant<Seq<char>>) -> Json {
    Json::Record(
        Map::empty().insert("field"@, Json::Text(e.field)).insert("path"@, Json::Text(e.path)),
    )
}

/// Where the barrier was left, if it was.
pub open spec fn barrier_path(lifecycle: Option<Lifecycle<Seq<char>>>) -> Option<Seq<char>> {
    match lifecycle {
        Some(Lifecycle::Barred(path)) => Some(path),
        _ => None,
    }
}

/// The report as a document: what the engine found, and the verdict that a
/// script branches on.
pub open spec fn document(report: ReportView, lifecycle: Option<Lifecycle<Seq<char>>>) -> Json {
    Json::Record(
        Map::empty().insert(
            "removed"@,
            Json::List(report.removed.map_values(|r: Removed<Seq<char>>| removed_document(r))),
        ).insert(
            "remnants"@,
            Json::List(report.remnants.map_values(|r: Remnant<Seq<char>>| remnant_document(r))),
        ).insert(
            "external"@,
            Json::List(
                report.external.map_values(|e: ExternalRemnant<Seq<char>>| external_document(e)),
            ),
        ).insert("config_note"@, crate::json::text_or_null(report.config_note)).insert(
            "complete"@,
            Json::Bool(complete(report)),
        ).insert("interrupted"@, Json::Bool(cut_short(report))).insert(
            "secure_erasure"@,
            Json::Bool(false),
        ).insert("activation_barred"@, Json::Bool(barrier_path(lifecycle) is Some)).insert(
            "activation_barrier_path"@,
            crate::json::text_or_null(barrier_path(lifecycle)),
        ),
    )
}

fn removed_values(rows: &Vec<Removed>) -> (r: serde_json::Value)
    ensures
        crate::json::json_of(r) == Json::List(
            rows@.map_values(|r: Removed| r@).map_values(
                |r: Removed<Seq<char>>| removed_document(r),
            ),
        ),
{
    let mut values: Vec<serde_json::Value> = Vec::new();
    let mut i: usize = 0;
    while i < rows.len()
        invariant
            i <= rows.len(),
            values.len() == i,
            forall|j: int|
                0 <= j < i ==> crate::json::json_of(#[trigger] values[j]) == removed_document(
                    rows[j]@,
                ),
        decreases rows.len() - i,
    {
        let mut value = record();
        put(&mut value, "logical", text(rows[i].logical.as_str()));
        put(&mut value, "kind", text(rows[i].kind.as_str()));
        values.push(value);
        i += 1;
    }
    assert(crate::json::json_list(values@) =~= rows@.map_values(|r: Removed| r@).map_values(
        |r: Removed<Seq<char>>| removed_document(r),
    ));
    list(values)
}

fn remnant_values(rows: &Vec<Remnant>) -> (r: serde_json::Value)
    ensures
        crate::json::json_of(r) == Json::List(
            rows@.map_values(|r: Remnant| r@).map_values(
                |r: Remnant<Seq<char>>| remnant_document(r),
            ),
        ),
{
    let mut values: Vec<serde_json::Value> = Vec::new();
    let mut i: usize = 0;
    while i < rows.len()
        invariant
            i <= rows.len(),
            values.len() == i,
            forall|j: int|
                0 <= j < i ==> crate::json::json_of(#[trigger] values[j]) == remnant_document(
                    rows[j]@,
                ),
        decreases rows.len() - i,
    {
        let mut value = record();
        put(&mut value, "logical", text(rows[i].logical.as_str()));
        put(&mut value, "kind", text(rows[i].kind.word()));
        put(&mut value, "detail", text(rows[i].detail.as_str()));
        values.push(value);
        i += 1;
    }
    assert(crate::json::json_list(values@) =~= rows@.map_values(|r: Remnant| r@).map_values(
        |r: Remnant<Seq<char>>| remnant_document(r),
    ));
    list(values)
}

fn external_values(rows: &Vec<ExternalRemnant>) -> (r: serde_json::Value)
    ensures
        crate::json::json_of(r) == Json::List(
            rows@.map_values(|e: ExternalRemnant| e@).map_values(
                |e: ExternalRemnant<Seq<char>>| external_document(e),
            ),
        ),
{
    let mut values: Vec<serde_json::Value> = Vec::new();
    let mut i: usize = 0;
    while i < rows.len()
        invariant
            i <= rows.len(),
            values.len() == i,
            forall|j: int|
                0 <= j < i ==> crate::json::json_of(#[trigger] values[j]) == external_document(
                    rows[j]@,
                ),
        decreases rows.len() - i,
    {
        let mut value = record();
        put(&mut value, "field", text(rows[i].field.as_str()));
        put(&mut value, "path", text(rows[i].path.as_str()));
        values.push(value);
        i += 1;
    }
    assert(crate::json::json_list(values@) =~= rows@.map_values(
        |e: ExternalRemnant| e@,
    ).map_values(|e: ExternalRemnant<Seq<char>>| external_document(e)));
    list(values)
}

/// The report as a JSON document.
pub fn json_document(report: &PurgeReport, lifecycle: Option<&Lifecycle>) -> (r: String)
    ensures
        r@ == crate::json::rendered(
            document(
                report@,
                match lifecycle {
                    Some(l) => Some(l@),
                    None => None,
                },
            ),
        ),
{
    let mut value = record();
    put(&mut value, "removed", removed_values(&report.removed));
    put(&mut value, "remnants", remnant_values(&report.remnants));
    put(&mut value, "external", external_values(&report.external));
    put(&mut value, "config_note", optional_text(&report.config_note));
    put(&mut value, "complete", boolean(report.is_complete()));
    put(&mut value, "interrupted", boolean(interrupted(report)));
    put(&mut value, "secure_erasure", boolean(false));
    match lifecycle {
        Some(Lifecycle::Barred(path)) => {
            put(&mut value, "activation_barred", boolean(true));
            put(&mut value, "activation_barrier_path", text(path.as_str()));
        },
        _ => {
            put(&mut value, "activation_barred", boolean(false));
            put(&mut value, "activation_barrier_path", null());
        },
    }
    render(&value)
}

// ---------------------------------------------------------------------------
// Laws
// ---------------------------------------------------------------------------

/// Nothing is purged without root, without the authorization, or in a dry run;
/// nor without a yes to the question where it was not waived. Waiving the
/// question authorizes nothing.
pub proof fn law_destruction_needs_authorization(
    request: PurgeRequest,
    is_root: bool,
    confirmed: bool,
)
    ensures
        first_step(request, is_root) is Purge ==> is_root && request.allow_destruction
            && request.no_confirm && !request.dry_run,
        first_step(request, is_root) is Confirm ==> is_root && request.allow_destruction
            && !request.dry_run,
        after_answer(confirmed) is Purge <==> confirmed,
        !request.allow_destruction ==> !(first_step(request, is_root) is Purge) && !(first_step(
            request,
            is_root,
        ) is Confirm),
{
}

/// What a purge begins with, for every request: it is refused to all but root; a dry run
/// only reports; without the authorization it fails; the question is asked exactly
/// where it was not suppressed; and with all that it purges.
pub proof fn law_an_authorized_purge_runs(request: PurgeRequest, is_root: bool)
    ensures
        first_step(request, is_root) is Refuse <==> !is_root,
        first_step(request, is_root) is ReportOnly <==> is_root && request.dry_run,
        first_step(request, is_root) is Fail <==> is_root && !request.dry_run
            && !request.allow_destruction,
        first_step(request, is_root) is Confirm <==> is_root && !request.dry_run
            && request.allow_destruction && !request.no_confirm,
        first_step(request, is_root) is Purge <==> is_root && !request.dry_run
            && request.allow_destruction && request.no_confirm,
        first_step(request, is_root) matches PurgeStep::ReportOnly { header } ==> (header is None
            <==> request.json),
        first_step(request, is_root) matches PurgeStep::Fail(m) ==> m is DestructionNotAuthorized,
        after_answer(false) == PurgeStep::Leave(PurgeMessage::<Seq<char>>::Cancelled),
{
}

/// A purge is complete exactly if nothing was retained inside the roots, nothing
/// configured lies outside them, and the configuration was understood.
pub proof fn law_completeness_is_nothing_left(report: ReportView)
    ensures
        complete(report) <==> report.remnants.len() == 0 && report.external.len() == 0
            && report.config_note is None,
        cut_short(report) <==> exists|i: int|
            0 <= i < report.remnants.len() && ((#[trigger] report.remnants[i]).kind
                == RemnantKind::<Seq<char>>::Interrupted || report.remnants[i].kind
                == RemnantKind::Other("interrupted"@)),
{
    reveal_strlit("interrupted");
    reveal_strlit("symbolic_link");
    assert("interrupted"@.len() == 11 && "symbolic_link"@.len() == 13);
    assert forall|i: int| 0 <= i < report.remnants.len() implies (kind_word(
        (#[trigger] report.remnants[i]).kind,
    ) == "interrupted"@ <==> report.remnants[i].kind == RemnantKind::<Seq<char>>::Interrupted
        || report.remnants[i].kind == RemnantKind::Other("interrupted"@)) by {}
}

/// The report for people lists everything that was retained, in order and after
/// its count, each by its own place and reason.
pub proof fn law_everything_retained_is_listed(
    report: ReportView,
    lifecycle: Option<Lifecycle<Seq<char>>>,
    i: int,
)
    ensures
        0 <= i < report.remnants.len() ==> messages(report, lifecycle).contains(
            PurgeMessage::RemnantLine {
                logical: sanitized(report.remnants[i].logical),
                detail: sanitized(report.remnants[i].detail),
            },
        ),
        0 <= i < report.external.len() ==> messages(report, lifecycle).contains(
            PurgeMessage::ExternalLine {
                field: sanitized(report.external[i].field),
                path: sanitized(report.external[i].path),
            },
        ),
        report.remnants.len() > 0 ==> messages(report, lifecycle).contains(
            PurgeMessage::RemnantsHeader { count: report.remnants.len() as u64 },
        ),
        report.external.len() > 0 ==> messages(report, lifecycle).contains(
            PurgeMessage::ExternalHeader { count: report.external.len() as u64 },
        ),
        report.config_note matches Some(reason) ==> messages(report, lifecycle).contains(
            PurgeMessage::ConfigNote { reason: sanitized(reason) },
        ),
        cut_short(report) ==> messages(report, lifecycle).contains(
            PurgeMessage::<Seq<char>>::Interrupted,
        ),
        messages(report, lifecycle)[0] == if report.removed.len() == 0 {
            PurgeMessage::<Seq<char>>::NothingRemoved
        } else {
            PurgeMessage::RemovedCount { count: report.removed.len() as u64 }
        },
        lifecycle matches Some(Lifecycle::Restored) ==> messages(report, lifecycle).last()
            == PurgeMessage::<Seq<char>>::DaemonRestored,
        lifecycle matches Some(Lifecycle::Barred(path)) ==> messages(report, lifecycle).last() == (
        PurgeMessage::ActivationLeftBarred { path }),
{
    let a = removed_part(report);
    let b = interrupted_part(report);
    let c = remnants_part(report);
    let d = external_part(report);
    let e = note_part(report);
    let m = messages(report, lifecycle);
    let n1 = a.len() as int;
    let n2 = n1 + b.len();
    let n3 = n2 + c.len();
    let n4 = n3 + d.len();
    assert(m[0] == a[0]);
    if cut_short(report) {
        assert(m[n1] == b[0]);
    }
    if report.remnants.len() > 0 {
        assert(m[n2] == c[0]);
        if 0 <= i < report.remnants.len() {
            assert(m[n2 + 1 + i] == c[1 + i]);
        }
    }
    if report.external.len() > 0 {
        assert(m[n3] == d[0]);
        if 0 <= i < report.external.len() {
            assert(m[n3 + 1 + i] == d[1 + i]);
        }
    }
    if report.config_note is Some {
        assert(m[n4] == e[0]);
    }
}

/// What a program reads of a report: the verdict fields, the barrier, and one entry
/// for each name that was removed and each thing that was retained, in order.
pub proof fn law_the_document_tells_the_whole_report(
    report: ReportView,
    lifecycle: Option<Lifecycle<Seq<char>>>,
)
    ensures
        document(report, lifecycle) matches Json::Record(fields) && {
            &&& fields["complete"@] == Json::Bool(complete(report))
            &&& fields["interrupted"@] == Json::Bool(cut_short(report))
            &&& fields["secure_erasure"@] == Json::Bool(false)
            &&& fields["activation_barred"@] == Json::Bool(
                lifecycle matches Some(Lifecycle::Barred(_)),
            )
            &&& fields["activation_barrier_path"@] == (match lifecycle {
                Some(Lifecycle::Barred(path)) => Json::Text(path),
                _ => Json::Null,
            })
            &&& fields["config_note"@] == (match report.config_note {
                Some(note) => Json::Text(note),
                None => Json::Null,
            })
            &&& fields["removed"@] matches Json::List(rows) && rows.len() == report.removed.len()
            &&& fields["remnants"@] matches Json::List(rows) && rows.len() == report.remnants.len()
            &&& fields["external"@] matches Json::List(rows) && rows.len() == report.external.len()
        },
{
    reveal_strlit("removed");
    reveal_strlit("remnants");
    reveal_strlit("external");
    reveal_strlit("config_note");
    reveal_strlit("complete");
    reveal_strlit("interrupted");
    reveal_strlit("secure_erasure");
    reveal_strlit("activation_barred");
    reveal_strlit("activation_barrier_path");
    assert("removed"@.len() == 7 && "remnants"@.len() == 8 && "external"@.len() == 8
        && "config_note"@.len() == 11 && "complete"@.len() == 8 && "interrupted"@.len() == 11
        && "secure_erasure"@.len() == 14 && "activation_barred"@.len() == 17
        && "activation_barrier_path"@.len() == 23);
    assert("remnants"@[0] == 'r' && "external"@[0] == 'e' && "complete"@[0] == 'c'
        && "config_note"@[0] == 'c' && "interrupted"@[0] == 'i');
}

/// A remnant's entry has its place, the word for its reason, and its detail; a
/// removed name's entry its place and kind; an outside path's its field and path.
pub proof fn law_entries_tell_of_their_objects(
    r: Remnant<Seq<char>>,
    gone: Removed<Seq<char>>,
    e: ExternalRemnant<Seq<char>>,
)
    ensures
        remnant_document(r) matches Json::Record(fields) && fields["logical"@] == Json::Text(
            r.logical,
        ) && fields["kind"@] == Json::Text(kind_word(r.kind)) && fields["detail"@] == Json::Text(
            r.detail,
        ),
        removed_document(gone) matches Json::Record(fields) && fields["logical"@] == Json::Text(
            gone.logical,
        ) && fields["kind"@] == Json::Text(gone.kind),
        external_document(e) matches Json::Record(fields) && fields["field"@] == Json::Text(e.field)
            && fields["path"@] == Json::Text(e.path),
        kind_word(RemnantKind::Interrupted) == "interrupted"@,
        kind_word(RemnantKind::SymbolicLink) == "symbolic_link"@,
        kind_word(RemnantKind::Other(r.detail)) == r.detail,
{
    reveal_strlit("logical");
    reveal_strlit("kind");
    reveal_strlit("detail");
    reveal_strlit("field");
    reveal_strlit("path");
    assert("logical"@.len() == 7 && "kind"@.len() == 4 && "detail"@.len() == 6 && "field"@.len()
        == 5 && "path"@.len() == 4);
}

/// A dry run needs no authorization, and asks nothing.
pub proof fn law_dry_run_only_reports(request: PurgeRequest)
    requires
        request.dry_run,
    ensures
        first_step(request, true) is ReportOnly,
{
}

/// A run that retained anything, or was cut short, does not read as complete,
/// neither to people nor to programs; and no run claims erasure.
pub proof fn law_partial_runs_never_read_as_complete(
    report: ReportView,
    lifecycle: Option<Lifecycle<Seq<char>>>,
)
    ensures
        messages(report, lifecycle).contains(PurgeMessage::CompleteWithinRoots) <==> complete(
            report,
        ),
        messages(report, lifecycle).contains(PurgeMessage::NotComplete) <==> !complete(report),
        messages(report, lifecycle).contains(PurgeMessage::ErasureCaveat),
        cut_short(report) ==> !complete(report),
        crate::json::bool_under(document(report, lifecycle), "complete"@) == Some(
            complete(report),
        ),
        crate::json::bool_under(document(report, lifecycle), "secure_erasure"@) == Some(false),
{
    let m = messages(report, lifecycle);
    let before = removed_part(report) + interrupted_part(report) + remnants_part(report)
        + external_part(report) + note_part(report);
    let v = verdict_part(report);
    let after = lifecycle_part(lifecycle);
    assert(m =~= before + v + after);
    assert forall|i: int| 0 <= i < before.len() implies before[i]
        != PurgeMessage::<Seq<char>>::CompleteWithinRoots && before[i]
        != PurgeMessage::<Seq<char>>::NotComplete by {
        let a = removed_part(report);
        let b = interrupted_part(report);
        let c = remnants_part(report);
        let d = external_part(report);
        let e = note_part(report);
        if i < a.len() {
            assert(before[i] == a[i]);
        } else if i < a.len() + b.len() {
            assert(before[i] == b[i - a.len()]);
        } else if i < a.len() + b.len() + c.len() {
            assert(before[i] == c[i - a.len() - b.len()]);
        } else if i < a.len() + b.len() + c.len() + d.len() {
            assert(before[i] == d[i - a.len() - b.len() - c.len()]);
        } else {
            assert(before[i] == e[i - a.len() - b.len() - c.len() - d.len()]);
        }
    }
    assert forall|i: int| 0 <= i < after.len() implies after[i]
        != PurgeMessage::<Seq<char>>::CompleteWithinRoots && after[i]
        != PurgeMessage::<Seq<char>>::NotComplete by {}
    let at = before.len() as int;
    assert(m[at] == v[0] && m[at + 1] == v[1]);
    assert forall|i: int| 0 <= i < m.len() && i != at implies m[i]
        != PurgeMessage::<Seq<char>>::CompleteWithinRoots && m[i]
        != PurgeMessage::<Seq<char>>::NotComplete by {
        if i < at {
            assert(m[i] == before[i]);
        } else if i > at + 1 {
            assert(m[i] == after[i - at - 2]);
        }
    }
    lemma_verdict_fields(report, lifecycle);
}

proof fn lemma_verdict_fields(report: ReportView, lifecycle: Option<Lifecycle<Seq<char>>>)
    ensures
        crate::json::bool_under(document(report, lifecycle), "complete"@) == Some(
            complete(report),
        ),
        crate::json::bool_under(document(report, lifecycle), "secure_erasure"@) == Some(false),
{
    reveal_strlit("complete");
    reveal_strlit("interrupted");
    reveal_strlit("secure_erasure");
    reveal_strlit("activation_barred");
    reveal_strlit("activation_barrier_path");
    assert("complete"@.len() == 8);
    assert("interrupted"@.len() == 11);
    assert("secure_erasure"@.len() == 14);
    assert("activation_barred"@.len() == 17);
    assert("activation_barrier_path"@.len() == 23);
}

proof fn lemma_hex_is_plain(n: nat)
    requires
        n < 16,
    ensures
        !is_control(hex_digit(n)),
{
}

/// The control characters, by their numbers: those below the blank, the one above
/// the tilde, and the next 32.
pub proof fn law_control_characters_by_number(c: char)
    ensures
        is_control(c) <==> c as u32 <= 0x1f || 0x7f <= c as u32 <= 0x9f,
{
}

/// A control character is shown by its number, in two hexadecimal digits behind a
/// backslash and an x; any other is shown as it is.
pub proof fn law_controls_are_shown_by_number(c: char)
    ensures
        !is_control(c) ==> shown_char(c) == seq![c],
        is_control(c) ==> {
            let n = c as u32 as nat;
            &&& shown_char(c).len() == 4
            &&& shown_char(c)[0] == '\\' && shown_char(c)[1] == 'x'
            &&& shown_char(c)[2] == hex_digit(n / 16)
            &&& shown_char(c)[3] == hex_digit(n % 16)
        },
        forall|n: nat| n < 10 ==> #[trigger] hex_digit(n) as u32 == 48 + n,
        forall|n: nat| 10 <= n < 16 ==> #[trigger] hex_digit(n) as u32 == 87 + n,
{
}

/// What a run reports: how much was removed, or that nothing was; that it was cut
/// short, exactly where it was; its reason, exactly where there is one; and how the
/// daemon was left, exactly where a lease was held.
pub proof fn law_each_fact_is_reported(
    report: ReportView,
    lifecycle: Option<Lifecycle<Seq<char>>>,
)
    ensures
        removed_part(report) == seq![
            if report.removed.len() == 0 {
                PurgeMessage::<Seq<char>>::NothingRemoved
            } else {
                PurgeMessage::RemovedCount { count: report.removed.len() as u64 }
            },
        ],
        interrupted_part(report).len() == 1 <==> cut_short(report),
        remnants_part(report).len() == if report.remnants.len() == 0 {
            0
        } else {
            report.remnants.len() + 1
        },
        external_part(report).len() == if report.external.len() == 0 {
            0
        } else {
            report.external.len() + 1
        },
        note_part(report).len() == 1 <==> report.config_note is Some,
        report.config_note matches Some(reason) ==> note_part(report)[0] == (
        PurgeMessage::ConfigNote { reason: sanitized(reason) }),
        verdict_part(report).len() == 2,
        verdict_part(report)[0] is CompleteWithinRoots <==> complete(report),
        verdict_part(report)[0] is NotComplete <==> !complete(report),
        verdict_part(report)[1] is ErasureCaveat,
        lifecycle_part(lifecycle).len() == 1 <==> lifecycle is Some,
        lifecycle matches Some(Lifecycle::Restored) ==> lifecycle_part(lifecycle)[0]
            is DaemonRestored,
        forall|i: int|
            0 <= i < report.remnants.len() ==> #[trigger] remnants_part(report)[i + 1] == (
            PurgeMessage::RemnantLine {
                logical: sanitized(report.remnants[i].logical),
                detail: sanitized(report.remnants[i].detail),
            }),
        forall|i: int|
            0 <= i < report.external.len() ==> #[trigger] external_part(report)[i + 1] == (
            PurgeMessage::ExternalLine {
                field: sanitized(report.external[i].field),
                path: sanitized(report.external[i].path),
            }),
{
}

/// Nothing that controls a terminal is left in a text made for one, and a text
/// that had nothing of the kind is left as it is.
pub proof fn law_no_control_reaches_the_terminal(s: Seq<char>)
    ensures
        forall|i: int| 0 <= i < sanitized(s).len() ==> !is_control(#[trigger] sanitized(s)[i]),
        (forall|i: int| 0 <= i < s.len() ==> !is_control(#[trigger] s[i])) ==> sanitized(s) == s,
    decreases s.len(),
{
    if s.len() > 0 {
        let front = s.drop_last();
        law_no_control_reaches_the_terminal(front);
        let c = s.last();
        let tail = shown_char(c);
        if is_control(c) {
            lemma_hex_is_plain((c as u32) as nat / 16);
            lemma_hex_is_plain((c as u32) as nat % 16);
        }
        assert forall|i: int| 0 <= i < sanitized(s).len() implies !is_control(
            #[trigger] sanitized(s)[i],
        ) by {
            if i < sanitized(front).len() {
                assert(sanitized(s)[i] == sanitized(front)[i]);
            } else {
                assert(sanitized(s)[i] == tail[i - sanitized(front).len()]);
            }
        }
        if forall|i: int| 0 <= i < s.len() ==> !is_control(#[trigger] s[i]) {
            assert forall|i: int| 0 <= i < front.len() implies !is_control(#[trigger] front[i]) by {
                assert(front[i] == s[i]);
            }
            assert(sanitized(s) =~= s);
        }
    } else {
        assert(sanitized(s) =~= s);
    }
}

} // verus!
