//! The enrollment of a face: what has to hold before the camera is opened, the
//! label, and what is said around it.

use crate::direct::EncryptionMethod;
use crate::ipc_client::{require_root_scripted, FaceModelInfo};
use crate::message::FaceMessage;
use crate::text::{decimal_of, strip_prefix, u32_of};
use vstd::prelude::*;
use vstd::string::*;

verus! {

// ---------------------------------------------------------------------------
// Before the camera
// ---------------------------------------------------------------------------

/// The command that a refusal names.
pub open spec fn hint(skip_setup_check: bool, setup_complete: bool) -> Seq<char> {
    if !skip_setup_check && !setup_complete {
        "sudo facelock setup"@
    } else {
        "sudo facelock enroll"@
    }
}

/// The command that a refusal names: the setup, where it has not been run, for
/// that is what would be offered.
pub fn sudo_hint(skip_setup_check: bool, setup_complete: bool) -> (r: &'static str)
    ensures
        r@ == hint(skip_setup_check, setup_complete),
{
    if !skip_setup_check && !setup_complete {
        "sudo facelock setup"
    } else {
        "sudo facelock enroll"
    }
}

/// What an enrollment does next.
#[derive(Debug)]
pub enum EnrollStep<S = String> {
    /// Say that the setup was not run, and ask whether to run it.
    OfferSetup { notice: FaceMessage<S>, question: FaceMessage<S> },
    /// Run the setup, which enrolls a face itself.
    RunSetup,
    /// Look at how templates are encrypted.
    CheckEncryption,
    /// Look for the model files.
    ProbeModels { warning: Option<FaceMessage<S>> },
    /// Go on to the label and the camera.
    Enroll,
    /// There is nothing more to do.
    Finish { note: Option<FaceMessage<S>> },
    /// Fail with the message.
    Fail(FaceMessage<S>),
    /// Fail with the sentence.
    Refuse(S),
}

/// The text of an optional message.
pub open spec fn opt_message(m: Option<FaceMessage>) -> Option<FaceMessage<Seq<char>>> {
    match m {
        Some(message) => Some(message@),
        None => None,
    }
}

impl View for EnrollStep<String> {
    type V = EnrollStep<Seq<char>>;

    open spec fn view(&self) -> EnrollStep<Seq<char>> {
        match *self {
            EnrollStep::OfferSetup { notice, question } => EnrollStep::OfferSetup {
                notice: notice@,
                question: question@,
            },
            EnrollStep::RunSetup => EnrollStep::RunSetup,
            EnrollStep::CheckEncryption => EnrollStep::CheckEncryption,
            EnrollStep::ProbeModels { warning } => EnrollStep::ProbeModels {
                warning: opt_message(warning),
            },
            EnrollStep::Enroll => EnrollStep::Enroll,
            EnrollStep::Finish { note } => EnrollStep::Finish { note: opt_message(note) },
            EnrollStep::Fail(m) => EnrollStep::Fail(m@),
            EnrollStep::Refuse(s) => EnrollStep::Refuse(s@),
        }
    }
}

/// How an enrollment begins.
pub open spec fn first_step(
    is_root: bool,
    skip_setup_check: bool,
    setup_complete: bool,
) -> EnrollStep<Seq<char>> {
    if !is_root {
        EnrollStep::Refuse(
            crate::ipc_client::root_refusal(hint(skip_setup_check, setup_complete)),
        )
    } else if !skip_setup_check && !setup_complete {
        EnrollStep::OfferSetup {
            notice: FaceMessage::SetupNotCompleted,
            question: FaceMessage::ConfirmRunSetupNow,
        }
    } else {
        EnrollStep::CheckEncryption
    }
}

/// How an enrollment begins: root comes first, then the setup.
pub fn begin(is_root: bool, skip_setup_check: bool, setup_complete: bool) -> (r: EnrollStep)
    ensures
        r@ == first_step(is_root, skip_setup_check, setup_complete),
{
    let named = sudo_hint(skip_setup_check, setup_complete);
    match require_root_scripted(named, is_root) {
        Err(message) => EnrollStep::Refuse(message),
        Ok(_) => if !skip_setup_check && !setup_complete {
            EnrollStep::OfferSetup {
                notice: FaceMessage::SetupNotCompleted,
                question: FaceMessage::ConfirmRunSetupNow,
            }
        } else {
            EnrollStep::CheckEncryption
        },
    }
}

/// What follows the answer to the offer of the setup.
pub open spec fn after_offer(accepted: bool) -> EnrollStep<Seq<char>> {
    if accepted {
        EnrollStep::RunSetup
    } else {
        EnrollStep::Finish { note: Some(FaceMessage::RunSetupWhenReady) }
    }
}

/// The offer of the setup was answered.
pub fn setup_answered(accepted: bool) -> (r: EnrollStep)
    ensures
        r@ == after_offer(accepted),
{
    if accepted {
        EnrollStep::RunSetup
    } else {
        EnrollStep::Finish { note: Some(FaceMessage::RunSetupWhenReady) }
    }
}

/// The setup came back. One that completed enrolled a face, so nothing is left
/// to do.
pub fn setup_finished(setup_complete: bool) -> (r: EnrollStep)
    ensures
        r@ == after_setup(setup_complete),
{
    if setup_complete {
        EnrollStep::Finish { note: None }
    } else {
        EnrollStep::Fail(FaceMessage::SetupDidNotComplete)
    }
}

/// What follows the setup.
pub open spec fn after_setup(setup_complete: bool) -> EnrollStep<Seq<char>> {
    if setup_complete {
        EnrollStep::Finish { note: None }
    } else {
        EnrollStep::Fail(FaceMessage::SetupDidNotComplete)
    }
}

/// What follows the look at the encryption. `allowed` is what the configuration
/// says of an enrollment under it.
pub open spec fn after_encryption(
    method: EncryptionMethod,
    allow_plaintext: bool,
    allowed: Result<(), Seq<char>>,
) -> EnrollStep<Seq<char>> {
    if method == EncryptionMethod::Plaintext {
        if allow_plaintext {
            EnrollStep::ProbeModels { warning: Some(FaceMessage::PlaintextEnrollWarning) }
        } else {
            match allowed {
                Ok(_) => EnrollStep::ProbeModels { warning: None },
                Err(message) => EnrollStep::Refuse(message),
            }
        }
    } else {
        EnrollStep::ProbeModels { warning: None }
    }
}

/// What follows the look at the encryption: a template is stored in the clear
/// only by choice, and then not without a warning.
pub fn encryption_checked(
    method: EncryptionMethod,
    allow_plaintext: bool,
    allowed: Result<(), String>,
) -> (r: EnrollStep)
    ensures
        r@ == after_encryption(
            method,
            allow_plaintext,
            match allowed {
                Ok(u) => Ok(u),
                Err(m) => Err(m@),
            },
        ),
{
    if method == EncryptionMethod::Plaintext {
        if allow_plaintext {
            return EnrollStep::ProbeModels { warning: Some(FaceMessage::PlaintextEnrollWarning) };
        }
        if let Err(message) = allowed {
            return EnrollStep::Refuse(message);
        }
    }
    EnrollStep::ProbeModels { warning: None }
}

/// What follows the look for the model files.
pub open spec fn after_models(all_present: bool, model_dir: Seq<char>) -> EnrollStep<Seq<char>> {
    if all_present {
        EnrollStep::Enroll
    } else {
        EnrollStep::Fail(FaceMessage::ModelsMissing { dir: model_dir })
    }
}

/// The model files were looked for.
pub fn models_probed(all_present: bool, model_dir: &str) -> (r: EnrollStep)
    ensures
        r@ == after_models(all_present, model_dir@),
{
    if all_present {
        EnrollStep::Enroll
    } else {
        EnrollStep::Fail(FaceMessage::ModelsMissing { dir: String::from_str(model_dir) })
    }
}

// ---------------------------------------------------------------------------
// The label
// ---------------------------------------------------------------------------

/// The number behind the date and a dash in a label.
pub open spec fn label_number(label: Seq<char>, date: Seq<char>) -> Option<u32> {
    if crate::text::has_prefix(label, date) && crate::text::has_prefix(
        label.skip(date.len() as int),
        "-"@,
    ) {
        crate::text::parse_u32(label.skip(date.len() as int).skip(1))
    } else {
        None
    }
}

/// The highest number among the models' labels of a date; 0 without one.
pub open spec fn highest_number(models: Seq<FaceModelInfo<Seq<char>>>, date: Seq<char>) -> u32
    decreases models.len(),
{
    if models.len() == 0 {
        0
    } else {
        let before = highest_number(models.drop_last(), date);
        match label_number(models.last().label, date) {
            Some(n) if n > before => n,
            _ => before,
        }
    }
}

/// The label after the highest of a date.
pub open spec fn label_after(date: Seq<char>, highest: nat) -> Seq<char> {
    date + "-"@ + crate::text::decimal(highest + 1)
}

/// The next free label of a day; none where its numbers are used up.
pub open spec fn next_of_day(models: Seq<FaceModelInfo<Seq<char>>>, day: Seq<char>) -> Option<
    Seq<char>,
> {
    if highest_number(models, day) < u32::MAX {
        Some(label_after(day, highest_number(models, day) as nat))
    } else {
        None
    }
}

fn number_in_label(label: &str, date: &str) -> (r: Option<u32>)
    ensures
        r == label_number(label@, date@),
{
    proof {
        reveal_strlit("-");
    }
    match strip_prefix(label, date) {
        Some(rest) => match strip_prefix(rest.as_str(), "-") {
            Some(number) => u32_of(number.as_str()),
            None => None,
        },
        None => None,
    }
}

/// The highest number among the models' labels of a date; 0 without one.
pub fn highest_label(date: &str, models: &Vec<FaceModelInfo>) -> (r: u32)
    ensures
        r == highest_number(crate::ipc_client::models_view(models@), date@),
{
    let ghost all = crate::ipc_client::models_view(models@);
    let mut highest: u32 = 0;
    let mut i: usize = 0;
    while i < models.len()
        invariant
            i <= models.len(),
            all == crate::ipc_client::models_view(models@),
            highest == highest_number(all.take(i as int), date@),
        decreases models.len() - i,
    {
        assert(all.take(i as int + 1).drop_last() =~= all.take(i as int));
        assert(all[i as int].label == models[i as int].label@);
        if let Some(n) = number_in_label(models[i].label.as_str(), date) {
            if n > highest {
                highest = n;
            }
        }
        i += 1;
    }
    assert(all.take(models.len() as int) =~= all);
    highest
}

/// The next free label of a date, such as `2026-03-15-2`, given the user's
/// models.
pub fn next_label(date: &str, models: &Vec<FaceModelInfo>) -> (r: String)
    requires
        highest_number(crate::ipc_client::models_view(models@), date@) < u32::MAX,
    ensures
        r@ == label_after(
            date@,
            highest_number(crate::ipc_client::models_view(models@), date@) as nat,
        ),
{
    let highest: u32 = highest_label(date, models);
    let mut label = String::from_str(date);
    label.append("-");
    label.append(decimal_of((highest + 1) as u64).as_str());
    label
}

/// The label of an enrollment: the one that was given, else the next free one of
/// today. None where the numbers of the day are used up.
pub fn enrollment_label(given: Option<String>, models: &Vec<FaceModelInfo>) -> (r: Option<String>)
    ensures
        match given {
            Some(label) => crate::text::opt_text(r) == Some(label@),
            None => exists|day: Seq<char>|
                crate::text::is_day(day) && crate::text::opt_text(r) == #[trigger] next_of_day(
                    crate::ipc_client::models_view(models@),
                    day,
                ),
        },
{
    match given {
        Some(label) => Some(label),
        None => {
            let day = crate::pam::edit::today();
            let ghost named = next_of_day(crate::ipc_client::models_view(models@), day@);
            if highest_label(day.as_str(), models) == u32::MAX {
                assert(named is None);
                return None;
            }
            let label = next_label(day.as_str(), models);
            assert(named == Some(label@));
            Some(label)
        },
    }
}

// ---------------------------------------------------------------------------
// Around the camera
// ---------------------------------------------------------------------------

/// The note on models that were made with another embedder.
pub open spec fn staleness(has_models: bool, has_matching: bool, embedder: Seq<char>) -> Option<
    FaceMessage<Seq<char>>,
> {
    if has_models && !has_matching {
        Some(FaceMessage::StaleEmbedderNote { embedder })
    } else {
        None
    }
}

/// The note on models that were made with another embedder, where the user has
/// models and none of the configured one.
pub fn stale_note(has_models: bool, has_matching: bool, embedder: &str) -> (r: Option<FaceMessage>)
    ensures
        opt_message(r) == staleness(has_models, has_matching, embedder@),
{
    if has_models && !has_matching {
        Some(FaceMessage::StaleEmbedderNote { embedder: String::from_str(embedder) })
    } else {
        None
    }
}

/// What is said before the camera looks.
pub open spec fn announced(user: Seq<char>, label: Seq<char>) -> (
    FaceMessage<Seq<char>>,
    FaceMessage<Seq<char>>,
) {
    (FaceMessage::Enrolling { user, label }, FaceMessage::EnrollLookAtCamera)
}

/// What is said once a model is enrolled.
pub open spec fn completed(model_id: u32, count: u32, label: Seq<char>) -> FaceMessage<Seq<char>> {
    FaceMessage::EnrollComplete { model_id, count, label }
}

/// What is said as the enrollment starts.
pub fn enrolling(user: &str, label: &str) -> (r: (FaceMessage, FaceMessage))
    ensures
        (r.0@, r.1@) == announced(user@, label@),
{
    (
        FaceMessage::Enrolling { user: String::from_str(user), label: String::from_str(label) },
        FaceMessage::EnrollLookAtCamera,
    )
}

/// What is said when the model is stored.
pub fn enrolled(model_id: u32, embedding_count: u32, label: &str) -> (r: FaceMessage)
    ensures
        r@ == completed(model_id, embedding_count, label@),
{
    FaceMessage::EnrollComplete {
        model_id,
        count: embedding_count,
        label: String::from_str(label),
    }
}

/// The advice against many models.
pub open spec fn advice(user: Seq<char>, count: Option<usize>) -> Option<FaceMessage<Seq<char>>> {
    match count {
        Some(n) if n > 5 => Some(FaceMessage::TooManyModels { user, count: n as u64 }),
        _ => None,
    }
}

/// The advice against many models. A list that could not be had costs nothing
/// but the advice: the enrollment is done.
pub fn check_model_count(user: &str, count: Option<usize>) -> (r: Option<FaceMessage>)
    ensures
        opt_message(r) == advice(user@, count),
{
    match count {
        Some(n) => if n > 5 {
            Some(FaceMessage::TooManyModels { user: String::from_str(user), count: n as u64 })
        } else {
            None
        },
        None => None,
    }
}

// ---------------------------------------------------------------------------
// Laws
// ---------------------------------------------------------------------------

proof fn lemma_highest(models: Seq<FaceModelInfo<Seq<char>>>, date: Seq<char>, i: int)
    requires
        0 <= i < models.len(),
    ensures
        label_number(models[i].label, date) matches Some(n) ==> n <= highest_number(models, date),
    decreases models.len(),
{
    if i < models.len() - 1 {
        lemma_highest(models.drop_last(), date, i);
        assert(models.drop_last()[i] == models[i]);
    }
}

/// The next label of a date is no model's yet.
pub proof fn law_next_label_is_free(
    models: Seq<FaceModelInfo<Seq<char>>>,
    date: Seq<char>,
    i: int,
)
    requires
        0 <= i < models.len(),
        highest_number(models, date) < u32::MAX,
    ensures
        models[i].label != label_after(date, highest_number(models, date) as nat),
{
    reveal_strlit("-");
    let n = highest_number(models, date) as nat + 1;
    let label = label_after(date, highest_number(models, date) as nat);
    assert(label.take(date.len() as int) =~= date);
    assert(label.skip(date.len() as int) =~= "-"@ + crate::text::decimal(n));
    assert(label.skip(date.len() as int).take(1) =~= "-"@);
    assert(label.skip(date.len() as int).skip(1) =~= crate::text::decimal(n));
    crate::text::law_decimal_reads_back(n);
    assert(label_number(label, date) == Some(n as u32));
    lemma_highest(models, date, i);
}

/// For root, an enrollment goes straight to the encryption wherever the setup is
/// complete or its check is skipped, and the setup is offered exactly where
/// neither holds.
pub proof fn law_setup_is_offered_only_where_it_is_missing(
    is_root: bool,
    skip_setup_check: bool,
    setup_complete: bool,
)
    ensures
        first_step(is_root, skip_setup_check, setup_complete) is CheckEncryption <==> is_root && (
        setup_complete || skip_setup_check),
        first_step(is_root, skip_setup_check, setup_complete) is OfferSetup <==> is_root
            && !setup_complete && !skip_setup_check,
        first_step(is_root, skip_setup_check, setup_complete) is Refuse <==> !is_root,
        first_step(is_root, skip_setup_check, setup_complete) matches EnrollStep::OfferSetup {
            notice,
            question,
        } ==> notice is SetupNotCompleted && question is ConfirmRunSetupNow,
{
}

/// What an enrollment comes upon on its way to the camera.
pub struct Course {
    pub is_root: bool,
    pub skip_setup_check: bool,
    pub setup_complete: bool,
    pub method: EncryptionMethod,
    pub allow_plaintext: bool,
    pub allowed: Result<(), Seq<char>>,
    pub models_present: bool,
    pub model_dir: Seq<char>,
}

/// Where an enrollment stands after so many looks: at the beginning, after the
/// encryption, after the models. One that stopped stays.
pub open spec fn course_at(c: Course, looks: nat) -> EnrollStep<Seq<char>>
    decreases looks,
{
    if looks == 0 {
        first_step(c.is_root, c.skip_setup_check, c.setup_complete)
    } else {
        match course_at(c, (looks - 1) as nat) {
            EnrollStep::CheckEncryption => after_encryption(
                c.method,
                c.allow_plaintext,
                c.allowed,
            ),
            EnrollStep::ProbeModels { .. } => after_models(c.models_present, c.model_dir),
            step => step,
        }
    }
}

/// An enrollment gets to the camera exactly if it is root's, the setup is complete
/// or its check skipped, the templates are encrypted or may be stored in the
/// clear, and the model files are there.
pub proof fn law_enrollment_gets_to_the_camera_when_prepared(c: Course)
    ensures
        course_at(c, 2) is Enroll <==> {
            &&& c.is_root
            &&& c.setup_complete || c.skip_setup_check
            &&& c.method != EncryptionMethod::Plaintext || c.allow_plaintext || c.allowed is Ok
            &&& c.models_present
        },
        c.is_root && (c.setup_complete || c.skip_setup_check) && !c.models_present && (c.method
            != EncryptionMethod::Plaintext) ==> course_at(c, 2) == EnrollStep::<Seq<char>>::Fail(
            FaceMessage::ModelsMissing { dir: c.model_dir },
        ),
        course_at(c, 1) matches EnrollStep::ProbeModels { warning } ==> (warning is Some <==> c.method
            == EncryptionMethod::Plaintext && c.allow_plaintext),
{
    reveal_with_fuel(course_at, 3);
}

/// The setup runs only once it was accepted; declined, the command ends with the
/// advice to run it; and once it has run, success is its own completion.
pub proof fn law_the_setup_runs_only_on_acceptance(accepted: bool, completed: bool)
    ensures
        after_offer(accepted) is RunSetup <==> accepted,
        after_offer(accepted) is Finish <==> !accepted,
        after_setup(completed) is Finish <==> completed,
        after_setup(completed) is Fail <==> !completed,
        after_setup(true) == (EnrollStep::<Seq<char>>::Finish { note: None }),
{
}

/// A refusal names the command to repeat: the setup where it would be offered,
/// else the enrollment.
pub proof fn law_the_refusal_names_the_command_to_repeat(
    skip_setup_check: bool,
    setup_complete: bool,
)
    ensures
        first_step(false, skip_setup_check, setup_complete) == EnrollStep::Refuse(
            crate::ipc_client::root_refusal(
                if first_step(true, skip_setup_check, setup_complete) is OfferSetup {
                    "sudo facelock setup"@
                } else {
                    "sudo facelock enroll"@
                },
            ),
        ),
{
}

/// An enrollment is announced by whom and as what it enrolls, and its end by the
/// model's number, how many embeddings it holds, and its label.
pub proof fn law_an_enrollment_is_told_of_by_name(
    user: Seq<char>,
    label: Seq<char>,
    id: u32,
    embeddings: u32,
)
    ensures
        announced(user, label).0 matches FaceMessage::Enrolling { user: u, label: l } && u == user
            && l == label,
        announced(user, label).1 is EnrollLookAtCamera,
        completed(id, embeddings, label) matches FaceMessage::EnrollComplete {
            model_id,
            count,
            label: l,
        } && model_id == id && count == embeddings && l == label,
{
}

/// Models are called stale exactly where there are some and none was made with the
/// configured embedder, and the note names that embedder.
pub proof fn law_staleness_is_of_the_embedder(
    has_models: bool,
    has_matching: bool,
    embedder: Seq<char>,
)
    ensures
        staleness(has_models, has_matching, embedder) is Some <==> has_models && !has_matching,
        staleness(has_models, has_matching, embedder) matches Some(note) ==> note
            == (FaceMessage::StaleEmbedderNote { embedder }),
{
}

/// The advice comes with the sixth model, and says whose and how many.
pub proof fn law_advice_comes_with_the_sixth_model(user: Seq<char>, n: usize)
    ensures
        advice(user, Some(n)) is Some <==> n >= 6,
        n >= 6 ==> advice(user, Some(n)) == Some(
            FaceMessage::TooManyModels { user, count: n as u64 },
        ),
        advice(user, None) is None,
{
}

proof fn lemma_highest_is_held(models: Seq<FaceModelInfo<Seq<char>>>, date: Seq<char>)
    ensures
        highest_number(models, date) > 0 ==> exists|i: int|
            0 <= i < models.len() && label_number((#[trigger] models[i]).label, date) == Some(
                highest_number(models, date),
            ),
    decreases models.len(),
{
    if models.len() > 0 {
        let front = models.drop_last();
        lemma_highest_is_held(front, date);
        if highest_number(models, date) == highest_number(front, date) && highest_number(
            models,
            date,
        ) > 0 {
            let i = choose|i: int|
                0 <= i < front.len() && label_number((#[trigger] front[i]).label, date) == Some(
                    highest_number(front, date),
                );
            assert(models[i] == front[i]);
        } else if highest_number(models, date) > 0 {
            assert(models[models.len() - 1] == models.last());
        }
    }
}

/// The labels of a day count up from one: the next one bears the day and the
/// number after the highest that any label of the day has, and the first of a day
/// is number one.
pub proof fn law_labels_of_a_day_count_up(
    models: Seq<FaceModelInfo<Seq<char>>>,
    day: Seq<char>,
)
    ensures
        next_of_day(models, day) matches Some(label) ==> exists|n: nat|
            {
                &&& label == #[trigger] (day + "-"@ + crate::text::decimal(n))
                &&& n >= 1
                &&& forall|i: int|
                    0 <= i < models.len() ==> (label_number((#[trigger] models[i]).label, day)
                        matches Some(m) ==> m < n)
                &&& n == 1 || exists|i: int|
                    0 <= i < models.len() && label_number((#[trigger] models[i]).label, day)
                        == Some((n - 1) as u32)
            },
        next_of_day(models, day) is None ==> exists|i: int|
            0 <= i < models.len() && label_number((#[trigger] models[i]).label, day) == Some(
                u32::MAX,
            ),
{
    let h = highest_number(models, day);
    lemma_highest_is_held(models, day);
    assert forall|i: int| 0 <= i < models.len() implies (label_number(
        (#[trigger] models[i]).label,
        day,
    ) matches Some(m) ==> m <= h) by {
        lemma_highest(models, day, i);
    }
    if h < u32::MAX {
        let n = (h + 1) as nat;
        assert(next_of_day(models, day) == Some(day + "-"@ + crate::text::decimal(n)));
    }
}

/// The number of a label is what stands behind the day and a hyphen, and any other
/// label has none.
pub proof fn law_a_label_is_a_day_and_a_number(day: Seq<char>, n: u32, label: Seq<char>)
    ensures
        label_number(day + "-"@ + crate::text::decimal(n as nat), day) == Some(n),
        label_number(label, day) is Some ==> crate::text::has_prefix(label, day + "-"@),
{
    reveal_strlit("-");
    let made = day + "-"@ + crate::text::decimal(n as nat);
    assert(made.take(day.len() as int) =~= day);
    assert(made.skip(day.len() as int) =~= "-"@ + crate::text::decimal(n as nat));
    assert(made.skip(day.len() as int).take(1) =~= "-"@);
    assert(made.skip(day.len() as int).skip(1) =~= crate::text::decimal(n as nat));
    crate::text::law_decimal_reads_back(n as nat);
    if label_number(label, day) is Some {
        let d = day.len() as int;
        assert(label.take(d + 1) =~= label.take(d) + label.skip(d).take(1));
    }
}

/// Nothing but a refusal comes of an enrollment without root.
pub proof fn law_enrollment_needs_root(skip_setup_check: bool, setup_complete: bool)
    ensures
        first_step(false, skip_setup_check, setup_complete) is Refuse,
{
}

/// A plaintext template is never stored without the opt-in where the
/// configuration disallows it, nor with the opt-in without a warning.
pub proof fn law_plaintext_is_never_silent(allow_plaintext: bool, refusal: Seq<char>)
    ensures
        match after_encryption(EncryptionMethod::Plaintext, allow_plaintext, Err(refusal)) {
            EnrollStep::ProbeModels { warning } => allow_plaintext && warning is Some,
            EnrollStep::Refuse(m) => !allow_plaintext && m == refusal,
            _ => false,
        },
{
}

} // verus!
