//! The recognition test: whether it can run, and what it reports.
//!
//! Scores and times are floats. They come here as the texts that the report
//! shows.

use crate::ipc_client::{
    AuthFailureReason, DaemonResponse, FaceModelInfo, MatchResult, ResponseView,
};
use crate::is_enrolled::MarkerState;
use crate::text::{decimal_of, joined, same};
use vstd::prelude::*;
use vstd::string::*;

verus! {

// ---------------------------------------------------------------------------
// The models
// ---------------------------------------------------------------------------

/// What to do about the model files.
#[derive(Debug, Clone, Copy, PartialEq, Eq, Structural)]
pub enum ModelStep {
    /// They are there.
    Proceed,
    /// Say that they are not, and ask whether to download them.
    Offer,
    /// Run the setup, then look again.
    Setup,
    /// They are still not there.
    StillMissing,
    /// The offer was declined.
    Declined,
}

impl ModelStep {
    /// The error that ends the test, where the step is one.
    pub open spec fn complaint(self) -> Option<Seq<char>> {
        match self {
            ModelStep::StillMissing => Some("Models still not found after setup."@),
            ModelStep::Declined => Some(
                "Models required. Run `facelock setup` to download them."@,
            ),
            _ => None,
        }
    }

    /// The error that ends the test, where the step is one.
    pub fn error(self) -> (r: Option<&'static str>)
        ensures
            match r {
                Some(m) => self.complaint() == Some(m@),
                None => self.complaint() is None,
            },
    {
        match self {
            ModelStep::StillMissing => Some("Models still not found after setup."),
            ModelStep::Declined => Some("Models required. Run `facelock setup` to download them."),
            _ => None,
        }
    }
}

/// What follows the look for the files: before the setup, or after it.
pub open spec fn after_look(detector_there: bool, embedder_there: bool, set_up: bool) -> ModelStep {
    if detector_there && embedder_there {
        ModelStep::Proceed
    } else if set_up {
        ModelStep::StillMissing
    } else {
        ModelStep::Offer
    }
}

/// What follows the answer to the offer.
pub open spec fn after_offer(accepted: bool) -> ModelStep {
    if accepted {
        ModelStep::Setup
    } else {
        ModelStep::Declined
    }
}

/// The files were looked for.
pub fn models_probed(detector_there: bool, embedder_there: bool) -> (r: ModelStep)
    ensures
        r == after_look(detector_there, embedder_there, false),
{
    if !detector_there || !embedder_there {
        ModelStep::Offer
    } else {
        ModelStep::Proceed
    }
}

/// The offer was answered.
pub fn offer_answered(accepted: bool) -> (r: ModelStep)
    ensures
        r == after_offer(accepted),
{
    if accepted {
        ModelStep::Setup
    } else {
        ModelStep::Declined
    }
}

/// The files were looked for again, after the setup.
pub fn setup_finished(detector_there: bool, embedder_there: bool) -> (r: ModelStep)
    ensures
        r == after_look(detector_there, embedder_there, true),
{
    if !detector_there || !embedder_there {
        ModelStep::StillMissing
    } else {
        ModelStep::Proceed
    }
}

// ---------------------------------------------------------------------------
// The enrollment
// ---------------------------------------------------------------------------

/// The error of a store that is there and cannot be read. The marker is
/// consulted for the wording only.
pub open spec fn unreadable_store(
    marker: MarkerState<Seq<char>>,
    db_path: Seq<char>,
    cause: Seq<char>,
) -> Seq<char> {
    match marker {
        MarkerState::Enrolled(m) => "You appear to have "@ + crate::text::decimal(m.models as nat)
            + " enrolled model(s), but the face database at "@ + db_path
            + " can't be read right now ("@ + cause + ")."@,
        _ => "the face database at "@ + db_path + " can't be read ("@ + cause + ")"@,
    }
}

/// The error of a store that is there and cannot be read.
pub fn unreadable_store_error(marker: &MarkerState, db_path: &str, cause: &str) -> (r: String)
    ensures
        r@ == unreadable_store(marker@, db_path@, cause@),
{
    match marker {
        MarkerState::Enrolled(m) => {
            let mut message = String::from_str("You appear to have ");
            message.append(decimal_of(m.models).as_str());
            message.append(" enrolled model(s), but the face database at ");
            message.append(db_path);
            message.append(" can't be read right now (");
            message.append(cause);
            message.append(").");
            message
        },
        _ => {
            let mut message = String::from_str("the face database at ");
            message.append(db_path);
            message.append(" can't be read (");
            message.append(cause);
            message.append(")");
            message
        },
    }
}

/// What the store said when it was asked whether a user has models.
#[derive(Debug)]
pub enum StoreAnswer<S = String> {
    /// There is no database.
    Absent,
    /// There is one that would not open.
    Unopened { cause: S },
    /// It opened, and the query failed.
    Failed { error: S },
    Has(bool),
}

impl View for StoreAnswer<String> {
    type V = StoreAnswer<Seq<char>>;

    open spec fn view(&self) -> StoreAnswer<Seq<char>> {
        match *self {
            StoreAnswer::Absent => StoreAnswer::Absent,
            StoreAnswer::Unopened { cause } => StoreAnswer::Unopened { cause: cause@ },
            StoreAnswer::Failed { error } => StoreAnswer::Failed { error: error@ },
            StoreAnswer::Has(b) => StoreAnswer::Has(b),
        }
    }
}

/// Whether the user has models, or why there is no telling. A store that is not
/// there means no; a store that cannot be read does not.
pub open spec fn user_has_models(
    answer: StoreAnswer<Seq<char>>,
    marker: MarkerState<Seq<char>>,
    db_path: Seq<char>,
) -> Result<bool, Seq<char>> {
    match answer {
        StoreAnswer::Absent => Ok(false),
        StoreAnswer::Has(b) => Ok(b),
        StoreAnswer::Unopened { cause } => Err(unreadable_store(marker, db_path, cause)),
        StoreAnswer::Failed { error } => Err(
            unreadable_store(marker, db_path, "storage error: "@ + error),
        ),
    }
}

/// Whether the user has models, or why there is no telling.
pub fn direct_user_has_models(answer: &StoreAnswer, marker: &MarkerState, db_path: &str) -> (r:
    Result<bool, String>)
    ensures
        match r {
            Ok(b) => user_has_models(answer@, marker@, db_path@) == Ok::<bool, Seq<char>>(b),
            Err(m) => user_has_models(answer@, marker@, db_path@) == Err::<bool, Seq<char>>(m@),
        },
{
    match answer {
        StoreAnswer::Absent => Ok(false),
        StoreAnswer::Has(b) => Ok(*b),
        StoreAnswer::Unopened { cause } => Err(
            unreadable_store_error(marker, db_path, cause.as_str()),
        ),
        StoreAnswer::Failed { error } => {
            let mut cause = String::from_str("storage error: ");
            cause.append(error.as_str());
            Err(unreadable_store_error(marker, db_path, cause.as_str()))
        },
    }
}

/// What a daemon that did not list the models is reported as. `shown` is how
/// the response reads.
pub open spec fn not_a_list(answer: ResponseView, shown: Seq<char>) -> Seq<char> {
    match answer {
        ResponseView::Error { message } => "daemon error: "@ + message,
        _ => "unexpected response from daemon: "@ + shown,
    }
}

fn not_a_list_error(answer: &DaemonResponse, shown: &str) -> (r: String)
    ensures
        r@ == not_a_list(answer@, shown@),
{
    match answer {
        DaemonResponse::Error { message } => {
            let mut m = String::from_str("daemon error: ");
            m.append(message.as_str());
            m
        },
        _ => {
            let mut m = String::from_str("unexpected response from daemon: ");
            m.append(shown);
            m
        },
    }
}

/// Whether the user has models, by the daemon's list of them.
pub fn daemon_user_has_models(answer: &DaemonResponse, shown: &str) -> (r: Result<bool, String>)
    ensures
        match r {
            Ok(b) => answer@ matches ResponseView::Models(models) && b == (models.len() > 0),
            Err(m) => !(answer@ is Models) && m@ == not_a_list(answer@, shown@),
        },
{
    match answer {
        DaemonResponse::Models(models) => Ok(models.len() > 0),
        _ => Err(not_a_list_error(answer, shown)),
    }
}

/// Whether any of the models was made with the embedder.
pub open spec fn any_made_with(
    models: Seq<FaceModelInfo<Seq<char>>>,
    embedder: Seq<char>,
) -> bool {
    exists|i: int| 0 <= i < models.len() && (#[trigger] models[i]).embedder_model == embedder
}

/// Whether any of the user's models was made with the configured embedder, by
/// the daemon's list of them.
pub fn daemon_has_matching(answer: &DaemonResponse, embedder: &str, shown: &str) -> (r: Result<
    bool,
    String,
>)
    ensures
        match r {
            Ok(b) => answer@ matches ResponseView::Models(models) && b == any_made_with(
                models,
                embedder@,
            ),
            Err(m) => !(answer@ is Models) && m@ == not_a_list(answer@, shown@),
        },
{
    match answer {
        DaemonResponse::Models(models) => {
            let ghost all = crate::ipc_client::models_view(models@);
            let mut i: usize = 0;
            while i < models.len()
                invariant
                    i <= models.len(),
                    all == crate::ipc_client::models_view(models@),
                    answer@ == ResponseView::Models(all),
                    forall|j: int| 0 <= j < i ==> (#[trigger] all[j]).embedder_model != embedder@,
                decreases models.len() - i,
            {
                assert(all[i as int].embedder_model == models[i as int].embedder_model@);
                if same(models[i].embedder_model.as_str(), embedder) {
                    assert(any_made_with(all, embedder@));
                    return Ok(true);
                }
                i += 1;
            }
            Ok(false)
        },
        _ => Err(not_a_list_error(answer, shown)),
    }
}

/// What a user without models is told.
pub open spec fn not_enrolled(user: Seq<char>) -> Seq<Seq<char>> {
    seq![
        "No face models enrolled for user '"@ + user + "'."@,
        "Run 'facelock enroll' to enroll a face first."@,
    ]
}

/// What a user is told whose models were all made with another embedder.
pub open spec fn stale_embedder(embedder: Seq<char>) -> Seq<Seq<char>> {
    seq![
        "Warning: no enrolled models use the configured embedder '"@ + embedder + "'."@,
        "Re-enroll with 'facelock enroll' to use the current model."@,
    ]
}

/// What a user is told when the test starts.
pub open spec fn starting(user: Seq<char>) -> Seq<Seq<char>> {
    seq![
        "Testing face recognition for user '"@ + user + "'..."@,
        "Look at the camera."@,
    ]
}

/// How the test goes on.
#[derive(Debug)]
pub enum TestStep {
    /// Print the lines; there is nothing to test.
    Stop(Vec<String>),
    /// Print the lines, and look.
    Start(Vec<String>),
}

fn two_lines(before: &str, name: &str, after: &str, second: &str) -> (r: Vec<String>)
    ensures
        crate::text::texts(r@) == seq![before@ + name@ + after@, second@],
{
    let mut first = String::from_str(before);
    first.append(name);
    first.append(after);
    let mut lines: Vec<String> = Vec::new();
    lines.push(first);
    lines.push(String::from_str(second));
    assert(crate::text::texts(lines@) =~= seq![before@ + name@ + after@, second@]);
    lines
}

/// Whether to test, and what is said.
pub open spec fn test_begins(
    user: Seq<char>,
    embedder: Seq<char>,
    has_models: bool,
    has_matching: bool,
) -> (bool, Seq<Seq<char>>) {
    if !has_models {
        (false, not_enrolled(user))
    } else if !has_matching {
        (false, stale_embedder(embedder))
    } else {
        (true, starting(user))
    }
}

/// Whether to test: only a user with a model of the configured embedder can be
/// recognized.
pub fn test_step(user: &str, embedder: &str, has_models: bool, has_matching: bool) -> (r: TestStep)
    ensures
        match r {
            TestStep::Stop(lines) => test_begins(user@, embedder@, has_models, has_matching) == (
                false,
                crate::text::texts(lines@),
            ),
            TestStep::Start(lines) => test_begins(user@, embedder@, has_models, has_matching) == (
                true,
                crate::text::texts(lines@),
            ),
        },
{
    if !has_models {
        return TestStep::Stop(
            two_lines(
                "No face models enrolled for user '",
                user,
                "'.",
                "Run 'facelock enroll' to enroll a face first.",
            ),
        );
    }
    if !has_matching {
        return TestStep::Stop(
            two_lines(
                "Warning: no enrolled models use the configured embedder '",
                embedder,
                "'.",
                "Re-enroll with 'facelock enroll' to use the current model.",
            ),
        );
    }
    TestStep::Start(
        two_lines("Testing face recognition for user '", user, "'...", "Look at the camera."),
    )
}

// ---------------------------------------------------------------------------
// The report
// ---------------------------------------------------------------------------

/// The figures of a test, as the report shows them.
#[derive(Debug)]
pub struct Figures {
    /// The best similarity, with two decimals.
    pub similarity: String,
    /// The seconds that it took, with two decimals.
    pub seconds: String,
    /// The seconds that it took, with one decimal.
    pub about_seconds: String,
}

/// The event that is notified of a test's end.
#[derive(Debug)]
pub enum NotifyEvent<S = String> {
    Success { label: Option<S> },
    Failure { reason: S },
}

impl View for NotifyEvent<String> {
    type V = NotifyEvent<Seq<char>>;

    open spec fn view(&self) -> NotifyEvent<Seq<char>> {
        match *self {
            NotifyEvent::Success { label } => NotifyEvent::Success {
                label: crate::text::opt_text(label),
            },
            NotifyEvent::Failure { reason } => NotifyEvent::Failure { reason: reason@ },
        }
    }
}

/// How a test ends: the line to print, or the error to fail with, and the event
/// to notify.
#[derive(Debug)]
pub struct TestEnd<S = String> {
    pub line: Result<S, S>,
    pub event: NotifyEvent<S>,
}

impl View for TestEnd<String> {
    type V = TestEnd<Seq<char>>;

    open spec fn view(&self) -> TestEnd<Seq<char>> {
        TestEnd { line: crate::auth::result_text(self.line), event: self.event@ }
    }
}

/// The end of a test that matched, under the given head.
pub open spec fn matched_end(head: Seq<char>, label: Option<Seq<char>>, f: Figures) -> TestEnd<
    Seq<char>,
> {
    TestEnd {
        line: Ok(head + " (similarity: "@ + f.similarity@ + ") in "@ + f.seconds@ + "s"@),
        event: NotifyEvent::Success { label },
    }
}

/// The end of a test that did not match: the liveness rule stood in the way, or
/// the face was another.
pub open spec fn unmatched_end(blocked: bool, f: Figures) -> TestEnd<Seq<char>> {
    if blocked {
        TestEnd {
            line: Ok(
                "Face matched (best: "@ + f.similarity@
                    + ") but the liveness variance check was not satisfied after "@
                    + f.about_seconds@
                    + "s — try moving slightly, or tune security.frame_variance_max_similarity"@,
            ),
            event: NotifyEvent::Failure {
                reason: "face matched but liveness variance not satisfied"@,
            },
        }
    } else {
        TestEnd {
            line: Ok("No match (best: "@ + f.similarity@ + ") after "@ + f.about_seconds@ + "s"@),
            event: NotifyEvent::Failure {
                reason: "no match (best similarity: "@ + f.similarity@ + ")"@,
            },
        }
    }
}

fn matched_report(head: String, label: Option<String>, figures: &Figures) -> (r: TestEnd)
    ensures
        r@ == matched_end(head@, crate::text::opt_text(label), *figures),
{
    let mut line = head;
    line.append(" (similarity: ");
    line.append(figures.similarity.as_str());
    line.append(") in ");
    line.append(figures.seconds.as_str());
    line.append("s");
    TestEnd { line: Ok(line), event: NotifyEvent::Success { label } }
}

fn unmatched_report(blocked: bool, figures: &Figures) -> (r: TestEnd)
    ensures
        r@ == unmatched_end(blocked, *figures),
{
    if blocked {
        let mut line = String::from_str("Face matched (best: ");
        line.append(figures.similarity.as_str());
        line.append(") but the liveness variance check was not satisfied after ");
        line.append(figures.about_seconds.as_str());
        line.append("s — try moving slightly, or tune security.frame_variance_max_similarity");
        TestEnd {
            line: Ok(line),
            event: NotifyEvent::Failure {
                reason: String::from_str("face matched but liveness variance not satisfied"),
            },
        }
    } else {
        let mut line = String::from_str("No match (best: ");
        line.append(figures.similarity.as_str());
        line.append(") after ");
        line.append(figures.about_seconds.as_str());
        line.append("s");
        let mut reason = String::from_str("no match (best similarity: ");
        reason.append(figures.similarity.as_str());
        reason.append(")");
        TestEnd { line: Ok(line), event: NotifyEvent::Failure { reason } }
    }
}

/// The outermost sentence of a failure; empty where it has none.
pub open spec fn outermost(chain: Seq<Seq<char>>) -> Seq<char> {
    if chain.len() == 0 {
        ""@
    } else {
        chain[0]
    }
}

/// What a test without the daemon came to, with sequences in place of vectors and
/// strings.
pub open spec fn tested(result: Result<MatchResult, Vec<String>>) -> Result<
    MatchResult<Seq<char>>,
    Seq<Seq<char>>,
> {
    match result {
        Ok(m) => Ok(m@),
        Err(chain) => Err(crate::text::texts(chain@)),
    }
}

/// How a test without the daemon ends. It fails with the whole chain of
/// sentences, of which only the outermost is notified.
pub open spec fn direct_end(
    result: Result<MatchResult<Seq<char>>, Seq<Seq<char>>>,
    f: Figures,
) -> TestEnd<Seq<char>> {
    match result {
        Ok(m) => if m.matched {
            matched_end("Matched"@, m.label, f)
        } else {
            unmatched_end(m.failure_reason == Some(AuthFailureReason::VarianceNotSatisfied), f)
        },
        Err(chain) => TestEnd {
            line: Err(crate::text::join(chain, ": "@)),
            event: NotifyEvent::Failure { reason: outermost(chain) },
        },
    }
}

/// How a test without the daemon ends. A failure is a chain of sentences, the
/// outermost first.
pub fn direct_report(
    result: Result<MatchResult, Vec<String>>,
    figures: &Figures,
) -> (r: TestEnd)
    ensures
        r@ == direct_end(tested(result), *figures),
{
    match result {
        Ok(m) => if m.matched {
            matched_report(String::from_str("Matched"), m.label, figures)
        } else {
            unmatched_report(
                m.failure_reason == Some(AuthFailureReason::VarianceNotSatisfied),
                figures,
            )
        },
        Err(chain) => {
            let reason = if chain.len() == 0 {
                String::from_str("")
            } else {
                chain[0].clone()
            };
            TestEnd {
                line: Err(joined(&chain, ": ")),
                event: NotifyEvent::Failure { reason },
            }
        },
    }
}

/// The head of a match's line: the model, by number and label.
pub open spec fn matched_model(m: MatchResult<Seq<char>>) -> Seq<char> {
    "Matched model #"@ + crate::text::decimal(
        match m.model_id {
            Some(id) => id as nat,
            None => 0,
        },
    ) + " '"@ + (match m.label {
        Some(l) => l,
        None => "unknown"@,
    }) + "'"@
}

/// How a test through the daemon ends. The daemon gives no reason for a failure:
/// a similarity above the threshold, where variance is required, shows that the
/// liveness rule stood in the way.
pub open spec fn daemon_end(
    answer: ResponseView,
    require_variance: bool,
    above_threshold: bool,
    shown: Seq<char>,
    f: Figures,
) -> TestEnd<Seq<char>> {
    match answer {
        ResponseView::AuthResult(m) => if m.matched {
            matched_end(matched_model(m), m.label, f)
        } else {
            unmatched_end(require_variance && above_threshold, f)
        },
        _ => TestEnd {
            line: Err("unexpected response from daemon: "@ + shown),
            event: NotifyEvent::Failure { reason: "unexpected daemon response"@ },
        },
    }
}

/// How a test through the daemon ends.
pub fn daemon_report(
    answer: DaemonResponse,
    require_variance: bool,
    above_threshold: bool,
    shown: &str,
    figures: &Figures,
) -> (r: TestEnd)
    ensures
        r@ == daemon_end(answer@, require_variance, above_threshold, shown@, *figures),
{
    match answer {
        DaemonResponse::AuthResult(m) => if m.matched {
            let id: u32 = match m.model_id {
                Some(id) => id,
                None => 0,
            };
            let mut head = String::from_str("Matched model #");
            head.append(decimal_of(id as u64).as_str());
            head.append(" '");
            match &m.label {
                Some(l) => {
                    head.append(l.as_str());
                },
                None => {
                    head.append("unknown");
                },
            }
            head.append("'");
            matched_report(head, m.label, figures)
        } else {
            unmatched_report(require_variance && above_threshold, figures)
        },
        _ => {
            let mut message = String::from_str("unexpected response from daemon: ");
            message.append(shown);
            TestEnd {
                line: Err(message),
                event: NotifyEvent::Failure {
                    reason: String::from_str("unexpected daemon response"),
                },
            }
        },
    }
}

// ---------------------------------------------------------------------------
// Laws
// ---------------------------------------------------------------------------

/// A test begins exactly if the user has a model of the configured embedder; who has
/// no model at all is told to enroll, by name, and who has only others is told of
/// the embedder.
pub proof fn law_a_test_needs_a_matching_model(
    user: Seq<char>,
    embedder: Seq<char>,
    has_models: bool,
    has_matching: bool,
)
    ensures
        test_begins(user, embedder, has_models, has_matching).0 <==> has_models && has_matching,
        !has_models ==> test_begins(user, embedder, has_models, has_matching).1[0]
            == "No face models enrolled for user '"@ + user + "'."@,
        has_models && !has_matching ==> test_begins(user, embedder, has_models, has_matching).1[0]
            == "Warning: no enrolled models use the configured embedder '"@ + embedder + "'."@,
        has_models && has_matching ==> test_begins(user, embedder, has_models, has_matching).1[0]
            == "Testing face recognition for user '"@ + user + "'..."@,
{
}

/// An answer of the daemon that is no list is reported by its message where it is an
/// error.
pub proof fn law_a_daemon_error_is_handed_on(answer: ResponseView, shown: Seq<char>)
    ensures
        answer matches ResponseView::Error { message } ==> not_a_list(answer, shown)
            == "daemon error: "@ + message,
        !(answer is Error) ==> not_a_list(answer, shown) == "unexpected response from daemon: "@
            + shown,
{
}

/// A failed test is reported by its outermost sentence, and a match by the model's
/// number and label.
pub proof fn law_a_match_names_its_model(
    chain: Seq<Seq<char>>,
    m: MatchResult<Seq<char>>,
    id: u32,
    label: Seq<char>,
)
    requires
        m.model_id == Some(id),
        m.label == Some(label),
    ensures
        chain.len() > 0 ==> outermost(chain) == chain[0],
        matched_model(m) == "Matched model #"@ + crate::text::decimal(id as nat) + " '"@ + label
            + "'"@,
{
}

/// A store that cannot be read is never reported as nobody enrolled, and the
/// marker never decides, it only words the error.
pub proof fn law_unreadable_is_not_absent(
    answer: StoreAnswer<Seq<char>>,
    a: MarkerState<Seq<char>>,
    b: MarkerState<Seq<char>>,
    db_path: Seq<char>,
)
    ensures
        user_has_models(answer, a, db_path) is Err <==> answer is Unopened || answer is Failed,
        user_has_models(answer, a, db_path) is Ok ==> user_has_models(answer, a, db_path)
            == user_has_models(answer, b, db_path),
{
}

/// A test goes on exactly with both model files; the setup runs only once it was
/// accepted; and files that are still missing after it, or an offer that was
/// declined, end the test with an error.
pub proof fn law_a_test_needs_both_model_files(
    detector_there: bool,
    embedder_there: bool,
    set_up: bool,
    accepted: bool,
)
    ensures
        after_look(detector_there, embedder_there, set_up) == ModelStep::Proceed <==> detector_there
            && embedder_there,
        after_look(detector_there, embedder_there, false) == ModelStep::Offer <==> !(detector_there
            && embedder_there),
        after_look(detector_there, embedder_there, true) == ModelStep::StillMissing <==> !(
        detector_there && embedder_there),
        after_offer(accepted) == ModelStep::Setup <==> accepted,
        after_offer(accepted) == ModelStep::Declined <==> !accepted,
        ModelStep::StillMissing.complaint() is Some && ModelStep::Declined.complaint() is Some,
        ModelStep::Proceed.complaint() is None && ModelStep::Offer.complaint() is None
            && ModelStep::Setup.complaint() is None,
{
}

/// Whether a user has models is the store's word, and an absent store means none.
pub proof fn law_the_store_says_who_is_enrolled(
    has: bool,
    marker: MarkerState<Seq<char>>,
    db_path: Seq<char>,
    models: Seq<FaceModelInfo<Seq<char>>>,
    m: FaceModelInfo<Seq<char>>,
    embedder: Seq<char>,
)
    ensures
        user_has_models(StoreAnswer::Has(has), marker, db_path) == Ok::<bool, Seq<char>>(has),
        user_has_models(StoreAnswer::Absent, marker, db_path) == Ok::<bool, Seq<char>>(false),
        any_made_with(models.push(m), embedder) <==> m.embedder_model == embedder || any_made_with(
            models,
            embedder,
        ),
        !any_made_with(Seq::empty(), embedder),
{
    let all = models.push(m);
    if any_made_with(models, embedder) {
        let i = choose|i: int|
            0 <= i < models.len() && (#[trigger] models[i]).embedder_model == embedder;
        assert(all[i] == models[i]);
    }
    if any_made_with(all, embedder) {
        let i = choose|i: int| 0 <= i < all.len() && (#[trigger] all[i]).embedder_model == embedder;
        if i < models.len() {
            assert(models[i] == all[i]);
        }
    }
    if m.embedder_model == embedder {
        assert(all[models.len() as int] == m);
    }
}

/// How a test without the daemon is reported: a match by its similarity and time;
/// a face that matched and was not accepted as living apart from a face that did
/// not match; and a failure by its whole chain, of which the outermost sentence is
/// notified.
pub proof fn law_a_direct_test_is_reported_by_its_verdict(
    m: MatchResult<Seq<char>>,
    chain: Seq<Seq<char>>,
    f: Figures,
)
    ensures
        direct_end(Ok(m), f).line is Ok,
        m.matched ==> direct_end(Ok(m), f) == (TestEnd {
            line: Ok("Matched (similarity: "@ + f.similarity@ + ") in "@ + f.seconds@ + "s"@),
            event: NotifyEvent::Success { label: m.label },
        }),
        !m.matched && m.failure_reason is None ==> direct_end(Ok(m), f) == (TestEnd {
            line: Ok("No match (best: "@ + f.similarity@ + ") after "@ + f.about_seconds@ + "s"@),
            event: NotifyEvent::Failure {
                reason: "no match (best similarity: "@ + f.similarity@ + ")"@,
            },
        }),
        !m.matched && m.failure_reason == Some(AuthFailureReason::VarianceNotSatisfied) ==> (
        direct_end(Ok(m), f).event matches NotifyEvent::Failure { reason } && reason
            == "face matched but liveness variance not satisfied"@),
        direct_end(Err(chain), f).line == Err::<Seq<char>, Seq<char>>(
            crate::text::join(chain, ": "@),
        ),
        chain.len() > 0 ==> direct_end(Err(chain), f).event == (NotifyEvent::Failure {
            reason: chain[0],
        }),
{
    reveal_strlit("Matched");
    reveal_strlit(" (similarity: ");
    reveal_strlit("Matched (similarity: ");
    assert("Matched"@ + " (similarity: "@ =~= "Matched (similarity: "@);
}

/// How a test through the daemon is reported: a match names the model and its
/// label; a face above the threshold that was not accepted is told apart where
/// variance is required; and an answer that is no verdict is an error.
pub proof fn law_a_daemon_test_is_reported_by_its_verdict(
    m: MatchResult<Seq<char>>,
    require_variance: bool,
    above_threshold: bool,
    shown: Seq<char>,
    answer: ResponseView,
    f: Figures,
)
    ensures
        ({
            let end = daemon_end(
                ResponseView::AuthResult(m),
                require_variance,
                above_threshold,
                shown,
                f,
            );
            &&& m.matched && m.model_id is Some && m.label is Some ==> end.line == Ok::<
                Seq<char>,
                Seq<char>,
            >(
                "Matched model #"@ + crate::text::decimal(m.model_id->0 as nat) + " '"@
                    + m.label->0 + "'"@ + " (similarity: "@ + f.similarity@ + ") in "@ + f.seconds@
                    + "s"@,
            )
            &&& m.matched ==> end.event == (NotifyEvent::Success { label: m.label })
            &&& !m.matched ==> (end.event == (NotifyEvent::Failure {
                reason: "face matched but liveness variance not satisfied"@,
            }) <==> require_variance && above_threshold)
        }),
        !(answer is AuthResult) ==> daemon_end(
            answer,
            require_variance,
            above_threshold,
            shown,
            f,
        ).line == Err::<Seq<char>, Seq<char>>("unexpected response from daemon: "@ + shown),
{
    reveal_strlit("face matched but liveness variance not satisfied");
    reveal_strlit("no match (best similarity: ");
    let reason = "no match (best similarity: "@ + f.similarity@ + ")"@;
    assert(reason[0] == 'n');
    assert("face matched but liveness variance not satisfied"@[0] == 'f');
}

/// Success is notified exactly of a match.
pub proof fn law_success_is_notified_of_a_match(
    result: Result<MatchResult<Seq<char>>, Seq<Seq<char>>>,
    answer: ResponseView,
    require_variance: bool,
    above_threshold: bool,
    shown: Seq<char>,
    f: Figures,
)
    ensures
        direct_end(result, f).event is Success <==> result is Ok && result->Ok_0.matched,
        daemon_end(answer, require_variance, above_threshold, shown, f).event is Success <==> answer
            is AuthResult && answer->AuthResult_0.matched,
{
}

} // verus!
