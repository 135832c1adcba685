//! The removal of one face model, or of all of a user's.

use crate::message::FaceMessage;
use vstd::prelude::*;
use vstd::string::*;

verus! {

/// What a removal does next.
#[derive(Debug)]
pub enum RemoveStep<S = String> {
    /// Ask the question.
    Confirm(FaceMessage<S>),
    /// Have the backend remove.
    Remove,
    /// Say the message, and leave everything as it is.
    Leave(FaceMessage<S>),
}

impl View for RemoveStep<String> {
    type V = RemoveStep<Seq<char>>;

    open spec fn view(&self) -> RemoveStep<Seq<char>> {
        match *self {
            RemoveStep::Confirm(m) => RemoveStep::Confirm(m@),
            RemoveStep::Remove => RemoveStep::Remove,
            RemoveStep::Leave(m) => RemoveStep::Leave(m@),
        }
    }
}

/// How the removal of a model begins.
pub open spec fn remove_first(user: Seq<char>, model_id: u32, yes: bool) -> RemoveStep<Seq<char>> {
    if yes {
        RemoveStep::Remove
    } else {
        RemoveStep::Confirm(FaceMessage::ConfirmRemoveModel { model_id, user })
    }
}

/// How the removal of all models begins. Nobody is asked about nothing.
pub open spec fn clear_first(user: Seq<char>, has_models: bool, yes: bool) -> RemoveStep<
    Seq<char>,
> {
    if !has_models {
        RemoveStep::Leave(FaceMessage::NoModelsEnrolled { user })
    } else if yes {
        RemoveStep::Remove
    } else {
        RemoveStep::Confirm(FaceMessage::ConfirmClearAll { user })
    }
}

/// What follows the answer to the question.
pub open spec fn after_answer(confirmed: bool) -> RemoveStep<Seq<char>> {
    if confirmed {
        RemoveStep::Remove
    } else {
        RemoveStep::Leave(FaceMessage::Cancelled)
    }
}

/// How the removal of a model begins.
pub fn remove_begin(user: &str, model_id: u32, yes: bool) -> (r: RemoveStep)
    ensures
        r@ == remove_first(user@, model_id, yes),
{
    if yes {
        RemoveStep::Remove
    } else {
        RemoveStep::Confirm(
            FaceMessage::ConfirmRemoveModel { model_id, user: String::from_str(user) },
        )
    }
}

/// How the removal of all of a user's models begins.
pub fn clear_begin(user: &str, has_models: bool, yes: bool) -> (r: RemoveStep)
    ensures
        r@ == clear_first(user@, has_models, yes),
{
    if !has_models {
        return RemoveStep::Leave(FaceMessage::NoModelsEnrolled { user: String::from_str(user) });
    }
    if yes {
        RemoveStep::Remove
    } else {
        RemoveStep::Confirm(FaceMessage::ConfirmClearAll { user: String::from_str(user) })
    }
}

/// The question was answered.
pub fn answered(confirmed: bool) -> (r: RemoveStep)
    ensures
        r@ == after_answer(confirmed),
{
    if confirmed {
        RemoveStep::Remove
    } else {
        RemoveStep::Leave(FaceMessage::Cancelled)
    }
}

/// What is said of a removal.
pub open spec fn removal_said(user: Seq<char>, model_id: u32, existed: Option<bool>) -> FaceMessage<
    Seq<char>,
> {
    if existed == Some(false) {
        FaceMessage::ModelNotFound { model_id, user }
    } else {
        FaceMessage::RemovedModel { model_id, user }
    }
}

/// What is said when all models are gone.
pub open spec fn clearing_said(user: Seq<char>, count: Option<u64>) -> FaceMessage<Seq<char>> {
    match count {
        Some(n) => FaceMessage::ClearedModels { count: n, user },
        None => FaceMessage::AllModelsRemoved { user },
    }
}

/// What is said of a removal. `existed` is missing where the daemon removed: its
/// reply does not say.
pub fn removed(user: &str, model_id: u32, existed: Option<bool>) -> (r: FaceMessage)
    ensures
        r@ == removal_said(user@, model_id, existed),
{
    match existed {
        Some(false) => FaceMessage::ModelNotFound { model_id, user: String::from_str(user) },
        _ => FaceMessage::RemovedModel { model_id, user: String::from_str(user) },
    }
}

/// What is said when all models are gone. The count is missing where the daemon
/// removed them.
pub fn cleared(user: &str, count: Option<u64>) -> (r: FaceMessage)
    ensures
        r@ == clearing_said(user@, count),
{
    match count {
        Some(n) => FaceMessage::ClearedModels { count: n, user: String::from_str(user) },
        None => FaceMessage::AllModelsRemoved { user: String::from_str(user) },
    }
}

// ---------------------------------------------------------------------------
// Laws
// ---------------------------------------------------------------------------

/// The flag or a yes to the question is all that a removal needs: with either, it
/// is carried out. The question is asked exactly where there is something to remove
/// and no flag, and names the model and the user.
pub proof fn law_consent_is_enough(
    user: Seq<char>,
    model_id: u32,
    has_models: bool,
    yes: bool,
)
    ensures
        remove_first(user, model_id, true) is Remove,
        remove_first(user, model_id, false) == RemoveStep::Confirm(
            FaceMessage::ConfirmRemoveModel { model_id, user },
        ),
        has_models ==> (clear_first(user, has_models, yes) is Remove <==> yes),
        has_models ==> clear_first(user, has_models, false) == RemoveStep::Confirm(
            FaceMessage::ConfirmClearAll { user },
        ),
        clear_first(user, false, yes) == RemoveStep::Leave(FaceMessage::NoModelsEnrolled { user }),
        after_answer(true) is Remove,
{
}

/// A removal is reported as one unless it is known that there was no such model,
/// and the report names the model and the user; a clearing is reported with its
/// count wherever that is known.
pub proof fn law_the_report_names_what_was_removed(
    user: Seq<char>,
    model_id: u32,
    existed: Option<bool>,
    count: u64,
)
    ensures
        removal_said(user, model_id, existed) == (FaceMessage::ModelNotFound { model_id, user })
            <==> existed == Some(false),
        removal_said(user, model_id, existed) == (FaceMessage::RemovedModel { model_id, user })
            <==> existed != Some(false),
        clearing_said(user, Some(count)) == (FaceMessage::ClearedModels { count, user }),
        clearing_said(user, None) == (FaceMessage::AllModelsRemoved { user }),
{
}

/// Nothing is removed without the flag or a yes to the question.
pub proof fn law_removal_needs_consent(
    user: Seq<char>,
    model_id: u32,
    has_models: bool,
    yes: bool,
    confirmed: bool,
)
    ensures
        remove_first(user, model_id, yes) is Remove ==> yes,
        clear_first(user, has_models, yes) is Remove ==> yes && has_models,
        after_answer(confirmed) is Remove ==> confirmed,
        after_answer(false) == RemoveStep::Leave(FaceMessage::<Seq<char>>::Cancelled),
{
}

} // verus!
