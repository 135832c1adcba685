//! One attempt to authenticate a user, from the configuration to the exit code.
//!
//! The attempt alternates outside work and decisions. Each function here takes
//! what a piece of outside work came to and says what to do next. The exit code
//! is the contract with the PAM module: 0 is a match, 1 is no match, and 2 is an
//! error, on which the module stands aside.

use crate::quirks::DeviceFingerprint;
use crate::text::holds;
use vstd::prelude::*;
use vstd::string::*;

verus! {

/// The user was recognized.
pub const EXIT_MATCHED: i32 = 0;

/// The user was not recognized.
pub const EXIT_NO_MATCH: i32 = 1;

/// The question could not be put.
pub const EXIT_ERROR: i32 = 2;

/// How an attempt ends.
#[derive(Debug)]
pub struct AuthExit<S = String> {
    pub code: i32,
    /// What is written to standard error.
    pub complaint: Option<S>,
    /// Whether the failure counts against the user's rate limit.
    pub record_failure: bool,
    /// The entry to put into the audit log.
    pub audit: Option<AuditEntry<S>>,
}

/// An entry of the audit log, stamped with the time when it is written.
#[derive(Debug, Clone, PartialEq, Eq)]
pub struct AuditEntry<S = String> {
    pub user: S,
    pub result: S,
    pub source: AuditSource,
    pub duration_ms: Option<u64>,
    pub device: Option<S>,
    pub error: Option<S>,
}

/// What an audited attempt was made for.
#[derive(Debug, Clone, Copy, PartialEq, Eq, Structural)]
pub enum AuditSource {
    /// An authentication in a process of its own.
    Oneshot,
    /// The recognition test.
    Test,
}

/// What is known of an attempt besides its outcome.
#[derive(Debug)]
pub struct AttemptFacts<S = String> {
    pub user: S,
    pub device: Option<S>,
    /// How long the comparison took.
    pub duration_ms: u64,
}

/// What an attempt does next.
#[derive(Debug)]
pub enum AuthStep<S = String> {
    /// Look for a camera.
    Detect,
    /// Query the camera at the path. A camera that cannot be queried is no
    /// error.
    Resolve { path: S },
    /// Open the store, creating it if need be.
    OpenStore,
    /// Ask the pre-flight rules.
    PreCheck,
    /// Open the camera and throw away the first frames.
    OpenCamera { warmup_frames: u32 },
    LoadModels,
    LoadEmbeddings,
    /// Run the comparison.
    Compare,
    Exit(AuthExit<S>),
}

/// What the comparison came to. Its similarity score is a float and stays with
/// the log line.
#[derive(Debug, Clone, PartialEq, Eq)]
pub enum AuthOutcome<S = String> {
    AuthResult { matched: bool },
    Error { message: S },
    Suppressed,
}

impl View for AuditEntry<String> {
    type V = AuditEntry<Seq<char>>;

    open spec fn view(&self) -> AuditEntry<Seq<char>> {
        AuditEntry {
            user: self.user@,
            result: self.result@,
            source: self.source,
            duration_ms: self.duration_ms,
            device: crate::text::opt_text(self.device),
            error: crate::text::opt_text(self.error),
        }
    }
}

impl View for AttemptFacts<String> {
    type V = AttemptFacts<Seq<char>>;

    open spec fn view(&self) -> AttemptFacts<Seq<char>> {
        AttemptFacts {
            user: self.user@,
            device: crate::text::opt_text(self.device),
            duration_ms: self.duration_ms,
        }
    }
}

impl View for AuthExit<String> {
    type V = AuthExit<Seq<char>>;

    open spec fn view(&self) -> AuthExit<Seq<char>> {
        AuthExit {
            code: self.code,
            complaint: crate::text::opt_text(self.complaint),
            record_failure: self.record_failure,
            audit: match self.audit {
                Some(entry) => Some(entry@),
                None => None,
            },
        }
    }
}

impl View for AuthStep<String> {
    type V = AuthStep<Seq<char>>;

    open spec fn view(&self) -> AuthStep<Seq<char>> {
        match *self {
            AuthStep::Detect => AuthStep::Detect,
            AuthStep::Resolve { path } => AuthStep::Resolve { path: path@ },
            AuthStep::OpenStore => AuthStep::OpenStore,
            AuthStep::PreCheck => AuthStep::PreCheck,
            AuthStep::OpenCamera { warmup_frames } => AuthStep::OpenCamera { warmup_frames },
            AuthStep::LoadModels => AuthStep::LoadModels,
            AuthStep::LoadEmbeddings => AuthStep::LoadEmbeddings,
            AuthStep::Compare => AuthStep::Compare,
            AuthStep::Exit(exit) => AuthStep::Exit(exit@),
        }
    }
}

impl View for AuthOutcome<String> {
    type V = AuthOutcome<Seq<char>>;

    open spec fn view(&self) -> AuthOutcome<Seq<char>> {
        match *self {
            AuthOutcome::AuthResult { matched } => AuthOutcome::AuthResult { matched },
            AuthOutcome::Error { message } => AuthOutcome::Error { message: message@ },
            AuthOutcome::Suppressed => AuthOutcome::Suppressed,
        }
    }
}

/// A plain ending: the code, and nothing else to do.
pub open spec fn exit_with(code: i32) -> AuthExit<Seq<char>> {
    AuthExit { code, complaint: None, record_failure: false, audit: None }
}

fn plain_exit(code: i32) -> (r: AuthExit)
    ensures
        r@ == exit_with(code),
{
    AuthExit { code, complaint: None, record_failure: false, audit: None }
}

/// The text of what went wrong, or the text that came of it.
pub open spec fn result_text(r: Result<String, String>) -> Result<Seq<char>, Seq<char>> {
    match r {
        Ok(s) => Ok(s@),
        Err(s) => Err(s@),
    }
}

// ---------------------------------------------------------------------------
// The steps
// ---------------------------------------------------------------------------

/// What follows the configuration, which may name a camera.
pub open spec fn after_config(config: Result<Option<Seq<char>>, Seq<char>>) -> AuthStep<
    Seq<char>,
> {
    match config {
        Err(error) => AuthStep::Exit(
            AuthExit {
                complaint: Some("facelock auth: config error: "@ + error),
                ..exit_with(EXIT_ERROR)
            },
        ),
        Ok(None) => AuthStep::Detect,
        Ok(Some(path)) => AuthStep::Resolve { path },
    }
}

/// What follows the search for a camera.
pub open spec fn after_detection(found: Result<Seq<char>, Seq<char>>) -> AuthStep<Seq<char>> {
    match found {
        Ok(path) => AuthStep::Resolve { path },
        Err(_) => AuthStep::Exit(exit_with(EXIT_ERROR)),
    }
}

/// What follows a piece of work: the next step, or an ending with the code.
pub open spec fn after(done: bool, next: AuthStep<Seq<char>>, code: i32) -> AuthStep<Seq<char>> {
    if done {
        next
    } else {
        AuthStep::Exit(exit_with(code))
    }
}

/// The number of frames to throw away: the hardware quirk's, else the
/// configuration's.
pub open spec fn warmup(quirk: Option<u32>, configured: u32) -> u32 {
    match quirk {
        Some(frames) => frames,
        None => configured,
    }
}

/// What follows the query of the camera, whatever came of it.
pub open spec fn after_query() -> AuthStep<Seq<char>> {
    AuthStep::OpenStore
}

/// What follows the store.
pub open spec fn after_store(opened: bool) -> AuthStep<Seq<char>> {
    after(opened, AuthStep::PreCheck, EXIT_ERROR)
}

/// What follows the pre-flight rules.
pub open spec fn after_rules(rejected: bool, quirk: Option<u32>, configured: u32) -> AuthStep<
    Seq<char>,
> {
    after(
        !rejected,
        AuthStep::OpenCamera { warmup_frames: warmup(quirk, configured) },
        EXIT_ERROR,
    )
}

/// What follows the camera.
pub open spec fn after_camera(opened: bool) -> AuthStep<Seq<char>> {
    after(opened, AuthStep::LoadModels, EXIT_ERROR)
}

/// What follows the face engine's models.
pub open spec fn after_models(loaded: bool) -> AuthStep<Seq<char>> {
    after(loaded, AuthStep::LoadEmbeddings, EXIT_ERROR)
}

/// What follows the user's templates.
pub open spec fn after_embeddings(loaded: bool) -> AuthStep<Seq<char>> {
    after(loaded, AuthStep::Compare, EXIT_NO_MATCH)
}

/// Whether an error of the comparison only says that it was too dark to see.
pub open spec fn too_dark(message: Seq<char>) -> bool {
    crate::text::contains(message, "all frames dark"@)
}

/// The audit entry of an error that came before the comparison's own entries.
pub open spec fn error_entry(facts: AttemptFacts<Seq<char>>, message: Seq<char>) -> AuditEntry<
    Seq<char>,
> {
    AuditEntry {
        user: facts.user,
        result: "error"@,
        source: AuditSource::Oneshot,
        duration_ms: Some(facts.duration_ms),
        device: facts.device,
        error: Some(message),
    }
}

/// How the attempt ends, by what the comparison came to.
pub open spec fn ending(
    outcome: AuthOutcome<Seq<char>>,
    facts: AttemptFacts<Seq<char>>,
) -> AuthExit<Seq<char>> {
    match outcome {
        AuthOutcome::AuthResult { matched: true } => exit_with(EXIT_MATCHED),
        AuthOutcome::AuthResult { matched: false } => AuthExit {
            record_failure: true,
            ..exit_with(EXIT_NO_MATCH)
        },
        AuthOutcome::Error { message } => if too_dark(message) {
            exit_with(EXIT_NO_MATCH)
        } else {
            AuthExit { audit: Some(error_entry(facts, message)), ..exit_with(EXIT_ERROR) }
        },
        AuthOutcome::Suppressed => exit_with(EXIT_ERROR),
    }
}

/// The configuration was read: the path of the camera that it names, or why it
/// could not be read.
pub fn config_loaded(config: Result<Option<String>, String>) -> (r: AuthStep)
    ensures
        r@ == after_config(
            match config {
                Ok(path) => Ok(crate::text::opt_text(path)),
                Err(error) => Err(error@),
            },
        ),
{
    match config {
        Err(error) => {
            let mut complaint = String::from_str("facelock auth: config error: ");
            complaint.append(error.as_str());
            AuthStep::Exit(
                AuthExit {
                    code: EXIT_ERROR,
                    complaint: Some(complaint),
                    record_failure: false,
                    audit: None,
                },
            )
        },
        Ok(None) => AuthStep::Detect,
        Ok(Some(path)) => AuthStep::Resolve { path },
    }
}

/// The search for a camera is over: its path, or why there is none.
pub fn camera_detected(found: Result<String, String>) -> (r: AuthStep)
    ensures
        r@ == after_detection(result_text(found)),
{
    match found {
        Ok(path) => AuthStep::Resolve { path },
        Err(_) => AuthStep::Exit(plain_exit(EXIT_ERROR)),
    }
}

/// The camera was queried. One that could not be is left to the pre-flight
/// rules.
pub fn camera_resolved() -> (r: AuthStep)
    ensures
        r@ == after_query(),
{
    AuthStep::OpenStore
}

/// The store was opened, or could not be.
pub fn store_opened(opened: bool) -> (r: AuthStep)
    ensures
        r@ == after_store(opened),
{
    if opened {
        AuthStep::PreCheck
    } else {
        AuthStep::Exit(plain_exit(EXIT_ERROR))
    }
}

/// The pre-flight rules answered. Whatever they reject, the module stands aside
/// and nothing counts as a failed match.
pub fn pre_checked(
    rejected: bool,
    quirk_warmup: Option<u32>,
    configured_warmup: u32,
) -> (r: AuthStep)
    ensures
        r@ == after_rules(rejected, quirk_warmup, configured_warmup),
{
    if rejected {
        return AuthStep::Exit(plain_exit(EXIT_ERROR));
    }
    AuthStep::OpenCamera { warmup_frames: warmup_frames(quirk_warmup, configured_warmup) }
}

/// The number of frames to throw away: the hardware quirk's, else the
/// configuration's.
pub fn warmup_frames(quirk: Option<u32>, configured: u32) -> (r: u32)
    ensures
        r == warmup(quirk, configured),
{
    match quirk {
        Some(frames) => frames,
        None => configured,
    }
}

/// The camera was opened, or could not be.
pub fn camera_opened(opened: bool) -> (r: AuthStep)
    ensures
        r@ == after_camera(opened),
{
    if opened {
        AuthStep::LoadModels
    } else {
        AuthStep::Exit(plain_exit(EXIT_ERROR))
    }
}

/// The face engine's models were loaded, or could not be.
pub fn models_loaded(loaded: bool) -> (r: AuthStep)
    ensures
        r@ == after_models(loaded),
{
    if loaded {
        AuthStep::LoadEmbeddings
    } else {
        AuthStep::Exit(plain_exit(EXIT_ERROR))
    }
}

/// The user's templates were loaded. Templates that cannot be read match nobody.
pub fn embeddings_loaded(loaded: bool) -> (r: AuthStep)
    ensures
        r@ == after_embeddings(loaded),
{
    if loaded {
        AuthStep::Compare
    } else {
        AuthStep::Exit(plain_exit(EXIT_NO_MATCH))
    }
}

/// The comparison is over.
pub fn compared(outcome: AuthOutcome, facts: AttemptFacts) -> (r: AuthExit)
    ensures
        r@ == ending(outcome@, facts@),
{
    match outcome {
        AuthOutcome::AuthResult { matched } => if matched {
            plain_exit(EXIT_MATCHED)
        } else {
            AuthExit {
                code: EXIT_NO_MATCH,
                complaint: None,
                record_failure: true,
                audit: None,
            }
        },
        AuthOutcome::Error { message } => if holds(message.as_str(), "all frames dark") {
            plain_exit(EXIT_NO_MATCH)
        } else {
            AuthExit {
                code: EXIT_ERROR,
                complaint: None,
                record_failure: false,
                audit: Some(
                    AuditEntry {
                        user: facts.user,
                        result: String::from_str("error"),
                        source: AuditSource::Oneshot,
                        duration_ms: Some(facts.duration_ms),
                        device: facts.device,
                        error: Some(message),
                    },
                ),
            }
        },
        AuthOutcome::Suppressed => plain_exit(EXIT_ERROR),
    }
}

// ---------------------------------------------------------------------------
// The camera's capabilities
// ---------------------------------------------------------------------------

/// What a camera showed when it was queried.
#[derive(Debug)]
pub struct CameraCaps {
    pub is_ir: bool,
    pub fingerprint: DeviceFingerprint,
}

/// The capabilities to check against: what the camera showed, or those of a
/// camera that could not be queried, which is not infrared and has whatever
/// identity can be read without it.
pub open spec fn caps_known(
    shown: Option<CameraCaps>,
    fingerprint: DeviceFingerprint,
) -> CameraCaps {
    match shown {
        Some(caps) => caps,
        None => CameraCaps { is_ir: false, fingerprint },
    }
}

/// The capabilities to check against: what the camera showed, or those of a
/// camera that could not be queried.
pub fn caps_of(shown: Option<CameraCaps>, fingerprint: DeviceFingerprint) -> (r: CameraCaps)
    ensures
        r == caps_known(shown, fingerprint),
{
    match shown {
        Some(caps) => caps,
        None => CameraCaps { is_ir: false, fingerprint },
    }
}

// ---------------------------------------------------------------------------
// Laws
// ---------------------------------------------------------------------------

/// What the outside work of one attempt comes to, or would come to.
pub struct Attempt {
    pub config: Result<Option<Seq<char>>, Seq<char>>,
    pub detected: Result<Seq<char>, Seq<char>>,
    pub store_opened: bool,
    pub rejected: bool,
    pub quirk_warmup: Option<u32>,
    pub configured_warmup: u32,
    pub camera_opened: bool,
    pub models_loaded: bool,
    pub embeddings_loaded: bool,
    pub outcome: AuthOutcome<Seq<char>>,
    pub facts: AttemptFacts<Seq<char>>,
}

/// The step after `step`, when its outside work comes to what `attempt` says.
pub open spec fn advance(step: AuthStep<Seq<char>>, attempt: Attempt) -> AuthStep<Seq<char>> {
    match step {
        AuthStep::Detect => after_detection(attempt.detected),
        AuthStep::Resolve { .. } => after_query(),
        AuthStep::OpenStore => after_store(attempt.store_opened),
        AuthStep::PreCheck => after_rules(
            attempt.rejected,
            attempt.quirk_warmup,
            attempt.configured_warmup,
        ),
        AuthStep::OpenCamera { .. } => after_camera(attempt.camera_opened),
        AuthStep::LoadModels => after_models(attempt.models_loaded),
        AuthStep::LoadEmbeddings => after_embeddings(attempt.embeddings_loaded),
        AuthStep::Compare => AuthStep::Exit(ending(attempt.outcome, attempt.facts)),
        AuthStep::Exit(exit) => AuthStep::Exit(exit),
    }
}

/// The step that the attempt stands at after `n` pieces of outside work beyond
/// the configuration.
pub open spec fn reached(attempt: Attempt, n: nat) -> AuthStep<Seq<char>>
    decreases n,
{
    if n == 0 {
        after_config(attempt.config)
    } else {
        advance(reached(attempt, (n - 1) as nat), attempt)
    }
}

/// Whether a camera's path is known once the configuration is read.
pub open spec fn has_camera(attempt: Attempt) -> bool {
    match attempt.config {
        Ok(Some(_)) => true,
        Ok(None) => attempt.detected is Ok,
        Err(_) => false,
    }
}

/// Whether the attempt gets as far as the comparison.
pub open spec fn gets_to_compare(attempt: Attempt) -> bool {
    has_camera(attempt) && attempt.store_opened && !attempt.rejected && attempt.camera_opened
        && attempt.models_loaded && attempt.embeddings_loaded
}

/// The exit of an attempt.
pub open spec fn exit_of(attempt: Attempt) -> AuthExit<Seq<char>> {
    reached(attempt, 8)->Exit_0
}

proof fn lemma_reached(attempt: Attempt)
    ensures
        reached(attempt, 8) is Exit,
        exit_of(attempt) == if attempt.config is Err {
            after_config(attempt.config)->Exit_0
        } else if !has_camera(attempt) || !attempt.store_opened || attempt.rejected
            || !attempt.camera_opened || !attempt.models_loaded {
            exit_with(EXIT_ERROR)
        } else if !attempt.embeddings_loaded {
            exit_with(EXIT_NO_MATCH)
        } else {
            ending(attempt.outcome, attempt.facts)
        },
{
    reveal_with_fuel(reached, 9);
}

/// The camera that an attempt queries is the one that the configuration names, and
/// the one that was found only where it names none.
pub proof fn law_the_configured_camera_is_the_one_queried(attempt: Attempt, n: nat)
    ensures
        attempt.config matches Ok(Some(path)) ==> reached(attempt, 0) == (AuthStep::<
            Seq<char>,
        >::Resolve { path }) && !(reached(attempt, n) is Detect),
        reached(attempt, n) matches AuthStep::Resolve { path } ==> match attempt.config {
            Ok(Some(configured)) => path == configured,
            Ok(None) => attempt.detected == Ok::<Seq<char>, Seq<char>>(path),
            Err(_) => false,
        },
        attempt.config == Ok::<Option<Seq<char>>, Seq<char>>(None) ==> reached(attempt, 0)
            is Detect,
        attempt.config == Ok::<Option<Seq<char>>, Seq<char>>(None) && attempt.detected is Ok
            ==> reached(attempt, 1) == (AuthStep::<Seq<char>>::Resolve {
            path: attempt.detected->Ok_0,
        }),
{
    reveal_with_fuel(reached, 3);
    lemma_queried(attempt, n);
}

proof fn lemma_queried(attempt: Attempt, n: nat)
    ensures
        match reached(attempt, n) {
            AuthStep::Detect => attempt.config == Ok::<Option<Seq<char>>, Seq<char>>(None) && n == 0,
            AuthStep::Resolve { path } => match attempt.config {
                Ok(Some(configured)) => path == configured && n == 0,
                Ok(None) => attempt.detected == Ok::<Seq<char>, Seq<char>>(path),
                Err(_) => false,
            },
            _ => true,
        },
    decreases n,
{
    if n > 0 {
        lemma_queried(attempt, (n - 1) as nat);
    }
}

/// The exit code of every attempt: 0 for a match; 1 where the comparison found
/// none, where it was too dark to see, and where the templates could not be
/// loaded; 2 for everything else, on which the module stands aside.
pub proof fn law_the_exit_code_answers_the_module(attempt: Attempt)
    ensures
        ({
            let code = exit_of(attempt).code;
            let ready = (attempt.config matches Ok(path) && (path is Some || attempt.detected is Ok))
                && attempt.store_opened && !attempt.rejected && attempt.camera_opened
                && attempt.models_loaded;
            let saw = match attempt.outcome {
                AuthOutcome::AuthResult { .. } => true,
                AuthOutcome::Error { message } => crate::text::contains(
                    message,
                    "all frames dark"@,
                ),
                AuthOutcome::Suppressed => false,
            };
            &&& code == 0 || code == 1 || code == 2
            &&& code == 0 <==> ready && attempt.embeddings_loaded && attempt.outcome
                == (AuthOutcome::<Seq<char>>::AuthResult { matched: true })
            &&& code == 1 <==> ready && (!attempt.embeddings_loaded || saw && attempt.outcome
                != (AuthOutcome::<Seq<char>>::AuthResult { matched: true }))
        }),
{
    lemma_reached(attempt);
}

/// Only a configuration that could not be read is complained of on standard
/// error, and the complaint ends with the reason.
pub proof fn law_only_the_configuration_is_complained_of(attempt: Attempt)
    ensures
        exit_of(attempt).complaint is Some <==> attempt.config is Err,
        attempt.config matches Err(reason) ==> exit_of(attempt).complaint == Some(
            "facelock auth: config error: "@ + reason,
        ) && exit_of(attempt).code == 2,
{
    lemma_reached(attempt);
}

/// What is audited of an error: whose attempt, on which camera, how long it took,
/// and the message as it came.
pub proof fn law_the_audit_entry_tells_of_the_attempt(attempt: Attempt)
    ensures
        exit_of(attempt).audit matches Some(entry) ==> {
            &&& entry.user == attempt.facts.user
            &&& entry.device == attempt.facts.device
            &&& entry.duration_ms == Some(attempt.facts.duration_ms)
            &&& entry.source == AuditSource::Oneshot
            &&& entry.result == "error"@
            &&& attempt.outcome matches AuthOutcome::Error { message } && entry.error == Some(
                message,
            )
        },
{
    lemma_reached(attempt);
}

/// The frames that are thrown away when the camera opens are as many as the
/// hardware quirk says, and as the configuration says only where no quirk does.
pub proof fn law_the_quirk_decides_the_warm_up(attempt: Attempt, n: nat)
    ensures
        reached(attempt, n) matches AuthStep::OpenCamera { warmup_frames } ==> {
            &&& attempt.quirk_warmup matches Some(frames) ==> warmup_frames == frames
            &&& attempt.quirk_warmup is None ==> warmup_frames == attempt.configured_warmup
        },
    decreases n,
{
    if n > 0 {
        law_the_quirk_decides_the_warm_up(attempt, (n - 1) as nat);
    }
}

/// The steps of an attempt that goes well come in this order: the store, the
/// rules, the camera, the models, the templates, the comparison.
pub proof fn law_the_steps_of_an_attempt_come_in_order(attempt: Attempt)
    requires
        attempt.config matches Ok(Some(_)),
        attempt.store_opened && !attempt.rejected && attempt.camera_opened,
        attempt.models_loaded && attempt.embeddings_loaded,
    ensures
        reached(attempt, 0) is Resolve,
        reached(attempt, 1) is OpenStore,
        reached(attempt, 2) is PreCheck,
        reached(attempt, 3) is OpenCamera,
        reached(attempt, 4) is LoadModels,
        reached(attempt, 5) is LoadEmbeddings,
        reached(attempt, 6) is Compare,
        reached(attempt, 7) is Exit,
{
    reveal_with_fuel(reached, 8);
}

/// A camera is taken for infrared only if it showed that it is; one that could not
/// be queried keeps the identity that was read without it.
pub proof fn law_an_unqueried_camera_is_not_infrared(
    shown: Option<CameraCaps>,
    fingerprint: DeviceFingerprint,
)
    ensures
        caps_known(shown, fingerprint).is_ir <==> (shown matches Some(caps) && caps.is_ir),
        shown is None ==> caps_known(shown, fingerprint).fingerprint == fingerprint,
        shown matches Some(caps) ==> caps_known(shown, fingerprint) == caps,
{
}

/// Every attempt ends, whatever the outside work comes to.
pub proof fn law_every_attempt_ends(attempt: Attempt)
    ensures
        reached(attempt, 8) is Exit,
{
    lemma_reached(attempt);
}

/// An attempt succeeds exactly if it gets to the comparison and the comparison
/// says that the user matched.
pub proof fn law_success_needs_a_match(attempt: Attempt)
    ensures
        exit_of(attempt).code == EXIT_MATCHED <==> gets_to_compare(attempt) && attempt.outcome
            == (AuthOutcome::<Seq<char>>::AuthResult { matched: true }),
{
    lemma_reached(attempt);
}

/// The rate limit is charged exactly for a comparison that found no match, and
/// then the code says so.
pub proof fn law_only_a_failed_match_is_charged(attempt: Attempt)
    ensures
        exit_of(attempt).record_failure <==> gets_to_compare(attempt) && attempt.outcome
            == (AuthOutcome::<Seq<char>>::AuthResult { matched: false }),
        exit_of(attempt).record_failure ==> exit_of(attempt).code == EXIT_NO_MATCH,
{
    lemma_reached(attempt);
}

/// An error of the comparison is audited, unless it only says that it was too
/// dark; nothing else is audited here.
pub proof fn law_errors_are_audited(attempt: Attempt)
    ensures
        exit_of(attempt).audit is Some <==> gets_to_compare(attempt) && (
        attempt.outcome matches AuthOutcome::Error { message } && !too_dark(message)),
        exit_of(attempt).audit is Some ==> exit_of(attempt).code == EXIT_ERROR,
{
    lemma_reached(attempt);
}

/// A pre-flight rejection makes the module stand aside: it is an error, it is
/// not charged, and the camera is never opened.
pub proof fn law_rejection_stands_aside(attempt: Attempt, n: nat)
    requires
        attempt.rejected,
    ensures
        exit_of(attempt).code == EXIT_ERROR,
        !exit_of(attempt).record_failure,
        !(reached(attempt, n) is OpenCamera),
        !(reached(attempt, n) is Compare),
{
    lemma_reached(attempt);
    lemma_rejected(attempt, n);
}

proof fn lemma_rejected(attempt: Attempt, n: nat)
    requires
        attempt.rejected,
    ensures
        match reached(attempt, n) {
            AuthStep::Detect => true,
            AuthStep::Resolve { .. } => true,
            AuthStep::OpenStore => true,
            AuthStep::PreCheck => true,
            AuthStep::Exit(_) => true,
            _ => false,
        },
    decreases n,
{
    if n > 0 {
        lemma_rejected(attempt, (n - 1) as nat);
    }
}

} // verus!
