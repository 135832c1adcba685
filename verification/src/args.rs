//! The command line as plain data, and what each part of it asks for.

use crate::pam::plan::{PamAction, PamRequest};
use vstd::prelude::*;

verus! {

/// The user a command operates on.
#[derive(Debug, Clone)]
pub struct UserArg {
    /// Username (default: current user)
    pub user: Option<String>,
}

/// Confirmation bypass for the commands whose only prompt is "are you sure?".
#[derive(Debug, Clone, Copy)]
pub struct ConfirmArg {
    /// Skip confirmation prompts
    pub yes: bool,
}

/// Machine-readable output. The payload goes to stdout and nothing else does.
#[derive(Debug, Clone, Copy)]
pub struct JsonArg {
    /// Output as JSON
    pub json: bool,
}

/// A preview of what a command would do.
#[derive(Debug, Clone, Copy)]
pub struct DryRunArg {
    /// Report what would change, and change nothing
    pub dry_run: bool,
}

/// `facelock setup`'s command line. A choice is held by its word.
#[derive(Debug, Clone)]
pub struct SetupCli {
    /// Run in non-interactive mode (skip wizard)
    pub non_interactive: bool,
    /// Skip confirmation prompts, and unlock the sensitive services
    pub yes: bool,
    /// Install or manage PAM module configuration
    pub pam: bool,
    /// Do not touch PAM configuration at all (no prompt, no write)
    pub no_pam: bool,
    /// Install and enable systemd units
    pub systemd: bool,
    /// Do not install or enable systemd units
    pub no_systemd: bool,
    /// Enroll a face during setup
    pub enroll: bool,
    /// Do not enroll a face during setup
    pub no_enroll: bool,
    /// Used with --systemd: disable and stop systemd units instead
    pub disable: bool,
    /// Used with --pam: target PAM service (default: sudo)
    pub service: Option<String>,
    /// Used with --pam: remove the PAM line instead of adding it
    pub remove: bool,
    /// Used with --pam --remove: treat an absent service file as success
    pub if_present: bool,
    /// Camera device path, or `auto` to re-detect from hardware
    pub camera: Option<String>,
    /// Model quality preset
    pub models: Option<String>,
    /// ONNX Runtime execution provider
    pub execution_provider: Option<String>,
    /// Embedding encryption method
    pub encryption: Option<String>,
}

/// What the setup was asked to do.
#[derive(Debug, Clone)]
pub struct SetupArgs {
    pub non_interactive: bool,
    pub yes: bool,
    pub pam: bool,
    pub no_pam: bool,
    pub systemd: bool,
    pub no_systemd: bool,
    pub enroll: bool,
    pub no_enroll: bool,
    pub disable: bool,
    pub service: Option<String>,
    pub remove: bool,
    pub if_present: bool,
    pub camera: Option<String>,
    pub models: Option<String>,
    pub execution_provider: Option<String>,
    pub encryption: Option<String>,
}

impl vstd::std_specs::convert::FromSpecImpl<SetupCli> for SetupArgs {
    open spec fn obeys_from_spec() -> bool {
        true
    }

    open spec fn from_spec(cli: SetupCli) -> SetupArgs {
        SetupArgs {
            non_interactive: cli.non_interactive,
            yes: cli.yes,
            pam: cli.pam,
            no_pam: cli.no_pam,
            systemd: cli.systemd,
            no_systemd: cli.no_systemd,
            enroll: cli.enroll,
            no_enroll: cli.no_enroll,
            disable: cli.disable,
            service: cli.service,
            remove: cli.remove,
            if_present: cli.if_present,
            camera: cli.camera,
            models: cli.models,
            execution_provider: cli.execution_provider,
            encryption: cli.encryption,
        }
    }
}

impl From<SetupCli> for SetupArgs {
    fn from(cli: SetupCli) -> (r: Self) {
        SetupArgs {
            non_interactive: cli.non_interactive,
            yes: cli.yes,
            pam: cli.pam,
            no_pam: cli.no_pam,
            systemd: cli.systemd,
            no_systemd: cli.no_systemd,
            enroll: cli.enroll,
            no_enroll: cli.no_enroll,
            disable: cli.disable,
            service: cli.service,
            remove: cli.remove,
            if_present: cli.if_present,
            camera: cli.camera,
            models: cli.models,
            execution_provider: cli.execution_provider,
            encryption: cli.encryption,
        }
    }
}

/// The services a `facelock pam` verb acts on. None means the default one.
#[derive(Debug, Clone)]
pub struct PamServiceArg {
    /// PAM service to act on; repeat for several (default: sudo)
    pub service: Vec<String>,
}

/// `facelock pam add | remove | status`.
#[derive(Debug, Clone)]
pub enum PamCli {
    /// Add the facelock line to one or more /etc/pam.d service files
    Add {
        service: PamServiceArg,
        confirm: ConfirmArg,
        allow_sensitive: bool,
        if_present: bool,
        dry_run: DryRunArg,
        json: JsonArg,
    },
    /// Remove the facelock line from one or more /etc/pam.d service files
    Remove {
        service: PamServiceArg,
        confirm: ConfirmArg,
        if_present: bool,
        dry_run: DryRunArg,
        json: JsonArg,
    },
    /// Report whether services carry the facelock line
    Status { service: PamServiceArg, json: JsonArg },
}

impl vstd::std_specs::convert::FromSpecImpl<PamCli> for PamRequest {
    open spec fn obeys_from_spec() -> bool {
        true
    }

    /// The request: `--json` leaves nobody to ask, so it waives the question as
    /// `--yes` does. Neither permits a sensitive service.
    open spec fn from_spec(cli: PamCli) -> PamRequest {
        match cli {
            PamCli::Add { service, confirm, allow_sensitive, if_present, dry_run, json } =>
                PamRequest {
                action: PamAction::Add,
                services: service.service,
                no_confirm: confirm.yes || json.json,
                allow_sensitive,
                if_present,
                dry_run: dry_run.dry_run,
                json: json.json,
            },
            PamCli::Remove { service, confirm, if_present, dry_run, json } => PamRequest {
                action: PamAction::Remove,
                services: service.service,
                no_confirm: confirm.yes || json.json,
                allow_sensitive: false,
                if_present,
                dry_run: dry_run.dry_run,
                json: json.json,
            },
            PamCli::Status { service, json } => PamRequest {
                action: PamAction::Status,
                services: service.service,
                no_confirm: false,
                allow_sensitive: false,
                if_present: false,
                dry_run: false,
                json: json.json,
            },
        }
    }
}

impl From<PamCli> for PamRequest {
    fn from(cli: PamCli) -> (r: Self) {
        match cli {
            PamCli::Add { service, confirm, allow_sensitive, if_present, dry_run, json } =>
                PamRequest {
                action: PamAction::Add,
                services: service.service,
                no_confirm: confirm.yes || json.json,
                allow_sensitive,
                if_present,
                dry_run: dry_run.dry_run,
                json: json.json,
            },
            PamCli::Remove { service, confirm, if_present, dry_run, json } => PamRequest {
                action: PamAction::Remove,
                services: service.service,
                no_confirm: confirm.yes || json.json,
                allow_sensitive: false,
                if_present,
                dry_run: dry_run.dry_run,
                json: json.json,
            },
            PamCli::Status { service, json } => PamRequest {
                action: PamAction::Status,
                services: service.service,
                no_confirm: false,
                allow_sensitive: false,
                if_present: false,
                dry_run: false,
                json: json.json,
            },
        }
    }
}

// ---------------------------------------------------------------------------
// Laws
// ---------------------------------------------------------------------------

/// Only its own flag permits the sensitive services: neither `--yes` nor
/// `--json` does.
pub proof fn law_only_its_flag_permits_sensitive(cli: PamCli)
    ensures
        ({
            let request = <PamRequest as vstd::std_specs::convert::FromSpec<PamCli>>::from_spec(
                cli,
            );
            request.allow_sensitive <==> (cli matches PamCli::Add { allow_sensitive, .. }
                && allow_sensitive)
        }),
{
}

/// The verb and the services of a request are those that were typed, and so is
/// every flag that the verb has; a verb that only looks writes nothing anyway.
pub proof fn law_a_request_is_what_was_typed(
    service: PamServiceArg,
    confirm: ConfirmArg,
    flag: bool,
    if_present: bool,
    dry_run: DryRunArg,
    json: JsonArg,
)
    ensures
        ({
            let request = <PamRequest as vstd::std_specs::convert::FromSpec<PamCli>>::from_spec(
                PamCli::Add {
                    service,
                    confirm,
                    allow_sensitive: flag,
                    if_present,
                    dry_run,
                    json,
                },
            );
            &&& request.action == PamAction::Add
            &&& request.services == service.service
            &&& request.no_confirm <==> confirm.yes || json.json
            &&& request.allow_sensitive == flag
            &&& request.if_present == if_present
            &&& request.dry_run == dry_run.dry_run
            &&& request.json == json.json
        }),
        ({
            let request = <PamRequest as vstd::std_specs::convert::FromSpec<PamCli>>::from_spec(
                PamCli::Remove { service, confirm, if_present, dry_run, json },
            );
            &&& request.action == PamAction::Remove
            &&& request.services == service.service
            &&& request.no_confirm <==> confirm.yes || json.json
            &&& request.if_present == if_present
            &&& request.dry_run == dry_run.dry_run
            &&& request.json == json.json
        }),
        ({
            let request = <PamRequest as vstd::std_specs::convert::FromSpec<PamCli>>::from_spec(
                PamCli::Status { service, json },
            );
            &&& request.action == PamAction::Status
            &&& request.services == service.service
            &&& request.json == json.json
        }),
{
}

/// What the setup was asked to do is what was typed, flag by flag.
pub proof fn law_the_setup_keeps_every_flag(cli: SetupCli)
    ensures
        ({
            let args = <SetupArgs as vstd::std_specs::convert::FromSpec<SetupCli>>::from_spec(cli);
            &&& args.non_interactive == cli.non_interactive
            &&& args.yes == cli.yes
            &&& args.pam == cli.pam
            &&& args.no_pam == cli.no_pam
            &&& args.systemd == cli.systemd
            &&& args.no_systemd == cli.no_systemd
            &&& args.enroll == cli.enroll
            &&& args.no_enroll == cli.no_enroll
            &&& args.disable == cli.disable
            &&& args.service == cli.service
            &&& args.remove == cli.remove
            &&& args.if_present == cli.if_present
            &&& args.camera == cli.camera
            &&& args.models == cli.models
            &&& args.execution_provider == cli.execution_provider
            &&& args.encryption == cli.encryption
        }),
{
}

/// A program that reads a write's document is never asked a question.
pub proof fn law_json_asks_nothing(cli: PamCli)
    ensures
        ({
            let request = <PamRequest as vstd::std_specs::convert::FromSpec<PamCli>>::from_spec(
                cli,
            );
            request.json && request.action != PamAction::Status ==> request.no_confirm
        }),
{
}

} // verus!
