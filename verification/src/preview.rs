//! The live preview: which form of it runs, and why not the graphical one.

pub mod text_only;
pub mod wayland_socket;

use crate::message::UserMessage;
use vstd::prelude::*;
use vstd::string::*;

verus! {

/// What carries out the commands.
#[derive(Debug, Clone, Copy, PartialEq, Eq, Structural)]
pub enum BackendKind {
    Daemon,
    /// The configuration does without the daemon.
    DirectByConfig,
    /// The daemon is configured, and cannot be reached.
    DirectByFallback,
}

/// The form of preview to run.
#[derive(Debug, Clone, Copy, PartialEq, Eq, Structural)]
pub enum PreviewMode {
    /// Text, from a camera that this process opens, after the notice.
    TextDirect { notice: Option<UserMessage> },
    /// Text, from the daemon's frames.
    Text,
    /// A window.
    Graphical,
}

/// Why there is no graphical preview without the daemon.
pub open spec fn why_not_graphical(kind: BackendKind) -> UserMessage {
    if kind == BackendKind::DirectByFallback {
        UserMessage::PreviewGraphicalDaemonUnreachable
    } else {
        UserMessage::PreviewGraphicalNeedsDaemonOneshot
    }
}

/// Why there is no graphical preview without the daemon: a stopped daemon is not
/// a choice of configuration.
pub fn graphical_unavailable_message(kind: BackendKind) -> (r: UserMessage)
    ensures
        r == why_not_graphical(kind),
{
    match kind {
        BackendKind::DirectByFallback => UserMessage::PreviewGraphicalDaemonUnreachable,
        _ => UserMessage::PreviewGraphicalNeedsDaemonOneshot,
    }
}

/// The form of preview to run.
pub open spec fn mode_of(kind: BackendKind, graphical_preview: bool, text_only: bool) -> PreviewMode {
    if !graphical_preview {
        PreviewMode::TextDirect {
            notice: if text_only {
                None
            } else {
                Some(why_not_graphical(kind))
            },
        }
    } else if text_only {
        PreviewMode::Text
    } else {
        PreviewMode::Graphical
    }
}

/// The form of preview to run. Someone who asked for text gets no notice.
pub fn preview_mode(kind: BackendKind, graphical_preview: bool, text_only: bool) -> (r: PreviewMode)
    ensures
        r == mode_of(kind, graphical_preview, text_only),
{
    if !graphical_preview {
        let notice = if text_only {
            None
        } else {
            Some(graphical_unavailable_message(kind))
        };
        return PreviewMode::TextDirect { notice };
    }
    if text_only {
        return PreviewMode::Text;
    }
    PreviewMode::Graphical
}

/// What is said when the window cannot be had and text takes its place.
pub fn window_failed(error: &str) -> (r: String)
    ensures
        r@ == "Wayland preview unavailable: "@ + error@
            + "\nFalling back to text-only mode.\n"@,
{
    let mut line = String::from_str("Wayland preview unavailable: ");
    line.append(error);
    line.append("\nFalling back to text-only mode.\n");
    line
}

// ---------------------------------------------------------------------------
// Laws
// ---------------------------------------------------------------------------

/// A window opens exactly where the backend can fill one and nobody asked for text,
/// and this process opens the camera itself exactly where the backend cannot.
pub proof fn law_a_window_needs_the_backend_and_no_wish_for_text(
    kind: BackendKind,
    graphical_preview: bool,
    text_only: bool,
)
    ensures
        mode_of(kind, graphical_preview, text_only) is Graphical <==> graphical_preview
            && !text_only,
        mode_of(kind, graphical_preview, text_only) is TextDirect <==> !graphical_preview,
{
}

/// Only someone who would have had a window is told why there is none, and only a
/// daemon that is configured and cannot be reached is called unreachable.
pub proof fn law_only_a_missed_window_is_explained(kind: BackendKind, text_only: bool)
    ensures
        mode_of(kind, false, text_only) matches PreviewMode::TextDirect { notice } && (notice is Some
            <==> !text_only) && (notice == Some(UserMessage::PreviewGraphicalDaemonUnreachable)
            <==> !text_only && kind == BackendKind::DirectByFallback) && (notice == Some(
            UserMessage::PreviewGraphicalNeedsDaemonOneshot,
        ) <==> !text_only && kind != BackendKind::DirectByFallback),
{
}

} // verus!
