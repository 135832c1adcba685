//! What the commands say, as data, to be rendered in the operator's language.

use vstd::prelude::*;

verus! {

/// A message of the preview.
#[derive(Debug, Clone, Copy, PartialEq, Eq, Structural)]
pub enum UserMessage {
    /// The daemon is configured, and cannot be reached.
    PreviewGraphicalDaemonUnreachable,
    /// The configuration does without the daemon.
    PreviewGraphicalNeedsDaemonOneshot,
}

/// A message of the commands on face models.
#[allow(inconsistent_fields)]
#[derive(Debug, Clone, PartialEq, Eq)]
pub enum FaceMessage<S = String> {
    NoModelsEnrolled { user: S },
    ConfirmClearAll { user: S },
    Cancelled,
    ClearedModels { count: u64, user: S },
    AllModelsRemoved { user: S },
    ConfirmRemoveModel { model_id: u32, user: S },
    ModelNotFound { model_id: u32, user: S },
    RemovedModel { model_id: u32, user: S },
    SetupNotCompleted,
    ConfirmRunSetupNow,
    SetupDidNotComplete,
    RunSetupWhenReady,
    PlaintextEnrollWarning,
    ModelsMissing { dir: S },
    StaleEmbedderNote { embedder: S },
    Enrolling { user: S, label: S },
    EnrollLookAtCamera,
    EnrollComplete { model_id: u32, count: u32, label: S },
    TooManyModels { user: S, count: u64 },
}

impl View for FaceMessage<String> {
    type V = FaceMessage<Seq<char>>;

    open spec fn view(&self) -> FaceMessage<Seq<char>> {
        match *self {
            FaceMessage::NoModelsEnrolled { user } => FaceMessage::NoModelsEnrolled { user: user@ },
            FaceMessage::ConfirmClearAll { user } => FaceMessage::ConfirmClearAll { user: user@ },
            FaceMessage::Cancelled => FaceMessage::Cancelled,
            FaceMessage::ClearedModels { count, user } => FaceMessage::ClearedModels {
                count,
                user: user@,
            },
            FaceMessage::AllModelsRemoved { user } => FaceMessage::AllModelsRemoved { user: user@ },
            FaceMessage::ConfirmRemoveModel { model_id, user } => FaceMessage::ConfirmRemoveModel {
                model_id,
                user: user@,
            },
            FaceMessage::ModelNotFound { model_id, user } => FaceMessage::ModelNotFound {
                model_id,
                user: user@,
            },
            FaceMessage::RemovedModel { model_id, user } => FaceMessage::RemovedModel {
                model_id,
                user: user@,
            },
            FaceMessage::SetupNotCompleted => FaceMessage::SetupNotCompleted,
            FaceMessage::ConfirmRunSetupNow => FaceMessage::ConfirmRunSetupNow,
            FaceMessage::SetupDidNotComplete => FaceMessage::SetupDidNotComplete,
            FaceMessage::RunSetupWhenReady => FaceMessage::RunSetupWhenReady,
            FaceMessage::PlaintextEnrollWarning => FaceMessage::PlaintextEnrollWarning,
            FaceMessage::ModelsMissing { dir } => FaceMessage::ModelsMissing { dir: dir@ },
            FaceMessage::StaleEmbedderNote { embedder } => FaceMessage::StaleEmbedderNote {
                embedder: embedder@,
            },
            FaceMessage::Enrolling { user, label } => FaceMessage::Enrolling {
                user: user@,
                label: label@,
            },
            FaceMessage::EnrollLookAtCamera => FaceMessage::EnrollLookAtCamera,
            FaceMessage::EnrollComplete { model_id, count, label } => FaceMessage::EnrollComplete {
                model_id,
                count,
                label: label@,
            },
            FaceMessage::TooManyModels { user, count } => FaceMessage::TooManyModels {
                user: user@,
                count,
            },
        }
    }
}

/// A message of the purge.
#[derive(Debug, Clone, PartialEq, Eq)]
pub enum PurgeMessage<S = String> {
    DryRunHeader,
    DestructionNotAuthorized,
    ConfirmPurge,
    Cancelled,
    NothingRemoved,
    RemovedCount { count: u64 },
    Interrupted,
    RemnantsHeader { count: u64 },
    RemnantLine { logical: S, detail: S },
    ExternalHeader { count: u64 },
    ExternalLine { field: S, path: S },
    ConfigNote { reason: S },
    CompleteWithinRoots,
    NotComplete,
    ErasureCaveat,
    DaemonRestored,
    ActivationLeftBarred { path: S },
}

impl View for PurgeMessage<String> {
    type V = PurgeMessage<Seq<char>>;

    open spec fn view(&self) -> PurgeMessage<Seq<char>> {
        match *self {
            PurgeMessage::DryRunHeader => PurgeMessage::DryRunHeader,
            PurgeMessage::DestructionNotAuthorized => PurgeMessage::DestructionNotAuthorized,
            PurgeMessage::ConfirmPurge => PurgeMessage::ConfirmPurge,
            PurgeMessage::Cancelled => PurgeMessage::Cancelled,
            PurgeMessage::NothingRemoved => PurgeMessage::NothingRemoved,
            PurgeMessage::RemovedCount { count } => PurgeMessage::RemovedCount { count },
            PurgeMessage::Interrupted => PurgeMessage::Interrupted,
            PurgeMessage::RemnantsHeader { count } => PurgeMessage::RemnantsHeader { count },
            PurgeMessage::RemnantLine { logical, detail } => PurgeMessage::RemnantLine {
                logical: logical@,
                detail: detail@,
            },
            PurgeMessage::ExternalHeader { count } => PurgeMessage::ExternalHeader { count },
            PurgeMessage::ExternalLine { field, path } => PurgeMessage::ExternalLine {
                field: field@,
                path: path@,
            },
            PurgeMessage::ConfigNote { reason } => PurgeMessage::ConfigNote { reason: reason@ },
            PurgeMessage::CompleteWithinRoots => PurgeMessage::CompleteWithinRoots,
            PurgeMessage::NotComplete => PurgeMessage::NotComplete,
            PurgeMessage::ErasureCaveat => PurgeMessage::ErasureCaveat,
            PurgeMessage::DaemonRestored => PurgeMessage::DaemonRestored,
            PurgeMessage::ActivationLeftBarred { path } => PurgeMessage::ActivationLeftBarred {
                path: path@,
            },
        }
    }
}

} // verus!
