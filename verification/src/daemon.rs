//! The start of the daemon: the order of its preparations, and what each failure
//! is reported as.

use crate::auth::{caps_of, CameraCaps};
use crate::quirks::DeviceFingerprint;
use crate::status::EpStatus;
use crate::text::joined;
use vstd::prelude::*;
use vstd::string::*;

verus! {

/// The next preparation.
#[derive(Debug)]
pub enum BuildStep<S = String> {
    /// Bring the state directory's modes in order. Nothing may open the store
    /// before.
    EnsureLayout,
    /// Look for a camera.
    Detect,
    /// Query the camera at the path. The daemon starts without an answer too.
    Query { path: S },
    /// See which model files are there.
    ProbeModels,
    /// See whether the inference runtime has the configured provider.
    ProbeProvider,
    LoadEngine,
    /// Open the store, creating it if need be.
    OpenStore,
    /// Everything is there.
    Serve,
}

impl View for BuildStep<String> {
    type V = BuildStep<Seq<char>>;

    open spec fn view(&self) -> BuildStep<Seq<char>> {
        match *self {
            BuildStep::EnsureLayout => BuildStep::EnsureLayout,
            BuildStep::Detect => BuildStep::Detect,
            BuildStep::Query { path } => BuildStep::Query { path: path@ },
            BuildStep::ProbeModels => BuildStep::ProbeModels,
            BuildStep::ProbeProvider => BuildStep::ProbeProvider,
            BuildStep::LoadEngine => BuildStep::LoadEngine,
            BuildStep::OpenStore => BuildStep::OpenStore,
            BuildStep::Serve => BuildStep::Serve,
        }
    }
}

/// A step or a failure, with sequences in place of strings.
pub open spec fn step_view(r: Result<BuildStep, String>) -> Result<
    BuildStep<Seq<char>>,
    Seq<char>,
> {
    match r {
        Ok(step) => Ok(step@),
        Err(message) => Err(message@),
    }
}

/// The next step, unless there was an error, which is reported under the
/// heading.
pub open spec fn go_on(
    error: Option<Seq<char>>,
    next: BuildStep<Seq<char>>,
    heading: Seq<char>,
) -> Result<BuildStep<Seq<char>>, Seq<char>> {
    match error {
        None => Ok(next),
        Some(e) => Err(heading + e),
    }
}

/// What follows the state directory: the camera, unless the configuration names
/// it.
pub open spec fn camera_step(configured: Option<Seq<char>>) -> BuildStep<Seq<char>> {
    match configured {
        Some(path) => BuildStep::Query { path },
        None => BuildStep::Detect,
    }
}

/// The refusal to start without the model files. It names those that are
/// missing.
pub open spec fn models_missing(missing: Seq<Seq<char>>) -> Seq<char> {
    "model files missing: "@ + crate::text::join(missing, ", "@)
        + " — run 'sudo facelock setup' to download them"@
}

/// What follows the configuration.
pub open spec fn after_config(error: Option<Seq<char>>) -> Result<BuildStep<Seq<char>>, Seq<char>> {
    go_on(error, BuildStep::EnsureLayout, "failed to load config: "@)
}

/// What follows the state directory.
pub open spec fn after_layout(configured: Option<Seq<char>>, error: Option<Seq<char>>) -> Result<
    BuildStep<Seq<char>>,
    Seq<char>,
> {
    match error {
        None => Ok(camera_step(configured)),
        Some(e) => Err(e),
    }
}

/// What follows the search for a camera.
pub open spec fn after_detection(found: Result<Seq<char>, Seq<char>>) -> Result<
    BuildStep<Seq<char>>,
    Seq<char>,
> {
    match found {
        Ok(path) => Ok(BuildStep::Query { path }),
        Err(e) => Err("no camera device specified and auto-detection failed: "@ + e),
    }
}

/// What follows the query of the camera, whatever came of it.
pub open spec fn after_query() -> BuildStep<Seq<char>> {
    BuildStep::ProbeModels
}

/// What follows the look for the model files.
pub open spec fn after_models(missing: Seq<Seq<char>>) -> Result<BuildStep<Seq<char>>, Seq<char>> {
    if missing.len() == 0 {
        Ok(BuildStep::ProbeProvider)
    } else {
        Err(models_missing(missing))
    }
}

/// What follows the look for the provider, whatever came of it.
pub open spec fn after_provider() -> BuildStep<Seq<char>> {
    BuildStep::LoadEngine
}

/// What follows the face engine.
pub open spec fn after_engine(error: Option<Seq<char>>) -> Result<BuildStep<Seq<char>>, Seq<char>> {
    go_on(error, BuildStep::OpenStore, "failed to load face engine: "@)
}

/// What follows the store.
pub open spec fn after_store(error: Option<Seq<char>>) -> Result<BuildStep<Seq<char>>, Seq<char>> {
    go_on(error, BuildStep::Serve, "failed to open database: "@)
}

fn next_or(error: Option<String>, next: BuildStep, heading: &str) -> (r: Result<
    BuildStep,
    String,
>)
    ensures
        step_view(r) == go_on(crate::text::opt_text(error), next@, heading@),
{
    match error {
        None => Ok(next),
        Some(e) => {
            let mut message = String::from_str(heading);
            message.append(e.as_str());
            Err(message)
        },
    }
}

/// The configuration was read, or could not be.
pub fn config_loaded(error: Option<String>) -> (r: Result<BuildStep, String>)
    ensures
        step_view(r) == after_config(crate::text::opt_text(error)),
{
    next_or(error, BuildStep::EnsureLayout, "failed to load config: ")
}

/// The state directory is in order, or could not be brought there.
pub fn layout_ensured(configured_path: Option<String>, error: Option<String>) -> (r: Result<
    BuildStep,
    String,
>)
    ensures
        step_view(r) == after_layout(
            crate::text::opt_text(configured_path),
            crate::text::opt_text(error),
        ),
{
    match error {
        None => match configured_path {
            Some(path) => Ok(BuildStep::Query { path }),
            None => Ok(BuildStep::Detect),
        },
        Some(e) => Err(e),
    }
}

/// The search for a camera is over: its path, or why there is none.
pub fn camera_detected(found: Result<String, String>) -> (r: Result<BuildStep, String>)
    ensures
        step_view(r) == after_detection(crate::auth::result_text(found)),
{
    match found {
        Ok(path) => Ok(BuildStep::Query { path }),
        Err(e) => {
            let mut message = String::from_str(
                "no camera device specified and auto-detection failed: ",
            );
            message.append(e.as_str());
            Err(message)
        },
    }
}

/// What a camera that could be queried showed: its capabilities, and the warm-up
/// that its quirk asks for.
#[derive(Debug)]
pub struct ShownDevice {
    pub caps: CameraCaps,
    pub quirk_warmup: Option<u32>,
}

/// What the daemon's handler knows of the camera.
#[derive(Debug)]
pub struct HandlerDevice {
    pub caps: CameraCaps,
    pub warmup_override: Option<u32>,
}

/// What the handler is to know of a camera: what the camera showed. One that
/// could not be queried is not infrared, has whatever identity can be read
/// without it, and no quirk.
pub open spec fn handler_device(
    shown: Option<ShownDevice>,
    fingerprint: DeviceFingerprint,
) -> HandlerDevice {
    match shown {
        Some(device) => HandlerDevice {
            caps: crate::auth::caps_known(Some(device.caps), fingerprint),
            warmup_override: device.quirk_warmup,
        },
        None => HandlerDevice {
            caps: crate::auth::caps_known(None, fingerprint),
            warmup_override: None,
        },
    }
}

/// The camera was queried. One that gave no answer does not keep the daemon from
/// starting.
pub fn device_queried(shown: Option<ShownDevice>, fingerprint: DeviceFingerprint) -> (r: (
    BuildStep,
    HandlerDevice,
))
    ensures
        r.0@ == after_query(),
        r.1 == handler_device(shown, fingerprint),
{
    let known = match shown {
        Some(device) => HandlerDevice {
            caps: caps_of(Some(device.caps), fingerprint),
            warmup_override: device.quirk_warmup,
        },
        None => HandlerDevice { caps: caps_of(None, fingerprint), warmup_override: None },
    };
    (BuildStep::ProbeModels, known)
}

/// The model files were looked for; these are missing.
pub fn models_probed(missing: &Vec<String>) -> (r: Result<BuildStep, String>)
    ensures
        step_view(r) == after_models(crate::text::texts(missing@)),
{
    if missing.len() == 0 {
        return Ok(BuildStep::ProbeProvider);
    }
    let mut message = String::from_str("model files missing: ");
    message.append(joined(missing, ", ").as_str());
    message.append(" — run 'sudo facelock setup' to download them");
    Err(message)
}

/// A line of the log.
#[derive(Debug, Clone, PartialEq, Eq)]
pub enum Notice<S = String> {
    Info(S),
    Warning(S),
}

impl View for Notice<String> {
    type V = Notice<Seq<char>>;

    open spec fn view(&self) -> Notice<Seq<char>> {
        match *self {
            Notice::Info(s) => Notice::Info(s@),
            Notice::Warning(s) => Notice::Warning(s@),
        }
    }
}

/// What is logged of the configured provider. Of a name that is none, nothing:
/// loading the engine fails on it, and says which names there are.
pub open spec fn provider_line(status: EpStatus<Seq<char>>) -> Option<Notice<Seq<char>>> {
    match status {
        EpStatus::Available => Some(Notice::Info("execution provider resolved"@)),
        EpStatus::NotBuiltIn => Some(
            Notice::Warning(
                "configured execution provider is not built into the installed ONNX Runtime; inference will fall back to CPU"@,
            ),
        ),
        EpStatus::Unqueryable(e) => Some(
            Notice::Warning(
                "could not query ONNX Runtime for provider availability: "@ + e,
            ),
        ),
        EpStatus::UnknownName => None,
    }
}

/// What is logged of the configured provider.
pub fn provider_notice(status: &EpStatus) -> (r: Option<Notice>)
    ensures
        match r {
            Some(notice) => provider_line(status@) == Some(notice@),
            None => provider_line(status@) is None,
        },
{
    match status {
        EpStatus::Available => Some(Notice::Info(String::from_str("execution provider resolved"))),
        EpStatus::NotBuiltIn => Some(
            Notice::Warning(
                String::from_str(
                    "configured execution provider is not built into the installed ONNX Runtime; inference will fall back to CPU",
                ),
            ),
        ),
        EpStatus::Unqueryable(e) => {
            let mut text = String::from_str(
                "could not query ONNX Runtime for provider availability: ",
            );
            text.append(e.as_str());
            Some(Notice::Warning(text))
        },
        EpStatus::UnknownName => None,
    }
}

/// The provider was looked for. Whatever came of it, the engine is loaded next.
pub fn provider_probed(status: &EpStatus) -> (r: (BuildStep, Option<Notice>))
    ensures
        r.0@ == after_provider(),
        match r.1 {
            Some(notice) => provider_line(status@) == Some(notice@),
            None => provider_line(status@) is None,
        },
{
    (BuildStep::LoadEngine, provider_notice(status))
}

/// The face engine was loaded, or could not be.
pub fn engine_loaded(error: Option<String>) -> (r: Result<BuildStep, String>)
    ensures
        step_view(r) == after_engine(crate::text::opt_text(error)),
{
    next_or(error, BuildStep::OpenStore, "failed to load face engine: ")
}

/// The store was opened, or could not be.
pub fn store_opened(error: Option<String>) -> (r: Result<BuildStep, String>)
    ensures
        step_view(r) == after_store(crate::text::opt_text(error)),
{
    next_or(error, BuildStep::Serve, "failed to open database: ")
}

// ---------------------------------------------------------------------------
// Laws
// ---------------------------------------------------------------------------

/// What the preparations come to, or would come to.
pub struct Preparations {
    pub config: Option<Seq<char>>,
    pub layout: Option<Seq<char>>,
    pub configured_path: Option<Seq<char>>,
    pub detected: Result<Seq<char>, Seq<char>>,
    pub missing: Seq<Seq<char>>,
    pub engine: Option<Seq<char>>,
    pub store: Option<Seq<char>>,
}

/// What follows a step, when its work comes to what the preparations say.
pub open spec fn advance(step: BuildStep<Seq<char>>, p: Preparations) -> Result<
    BuildStep<Seq<char>>,
    Seq<char>,
> {
    match step {
        BuildStep::EnsureLayout => after_layout(p.configured_path, p.layout),
        BuildStep::Detect => after_detection(p.detected),
        BuildStep::Query { .. } => Ok(after_query()),
        BuildStep::ProbeModels => after_models(p.missing),
        BuildStep::ProbeProvider => Ok(after_provider()),
        BuildStep::LoadEngine => after_engine(p.engine),
        BuildStep::OpenStore => after_store(p.store),
        BuildStep::Serve => Ok(BuildStep::Serve),
    }
}

/// Where the preparations stand after `n` of them beyond the configuration.
pub open spec fn reached(p: Preparations, n: nat) -> Result<BuildStep<Seq<char>>, Seq<char>>
    decreases n,
{
    if n == 0 {
        after_config(p.config)
    } else {
        match reached(p, (n - 1) as nat) {
            Ok(step) => advance(step, p),
            Err(message) => Err(message),
        }
    }
}

/// The daemon serves exactly if every preparation succeeded: a camera is named
/// or found, no model file is missing, and the configuration, the state
/// directory, the engine and the store are there.
pub proof fn law_daemon_serves_when_prepared(p: Preparations)
    ensures
        match reached(p, 7) {
            Ok(step) => step is Serve,
            Err(_) => true,
        },
        reached(p, 7) is Ok <==> p.config is None && p.layout is None && (p.configured_path is Some
            || p.detected is Ok) && p.missing.len() == 0 && p.engine is None && p.store is None,
{
    reveal_with_fuel(reached, 8);
}

/// The camera that is queried is the configured one, and the one that was found
/// only where none is configured.
pub proof fn law_the_configured_camera_is_the_one_queried(p: Preparations, n: nat)
    ensures
        reached(p, n) matches Ok(BuildStep::Query { path }) ==> match p.configured_path {
            Some(configured) => path == configured,
            None => p.detected == Ok::<Seq<char>, Seq<char>>(path),
        },
        reached(p, n) matches Ok(BuildStep::Detect) ==> p.configured_path is None,
    decreases n,
{
    if n > 0 {
        law_the_configured_camera_is_the_one_queried(p, (n - 1) as nat);
    }
}

/// Why a daemon does not start: the first preparation that failed, in words that
/// say which it was and end with its error.
pub proof fn law_the_first_failure_is_reported(p: Preparations)
    ensures
        p.config matches Some(e) ==> reached(p, 7) == Err::<BuildStep<Seq<char>>, Seq<char>>(
            "failed to load config: "@ + e,
        ),
        p.config is None && p.layout is Some ==> reached(p, 7) == Err::<
            BuildStep<Seq<char>>,
            Seq<char>,
        >(p.layout->0),
        p.config is None && p.layout is None && p.configured_path is None && (p.detected is Err)
            ==> reached(p, 7) == Err::<BuildStep<Seq<char>>, Seq<char>>(
            "no camera device specified and auto-detection failed: "@ + p.detected->Err_0,
        ),
        ({
            let camera = p.configured_path is Some || p.detected is Ok;
            let ready = p.config is None && p.layout is None && camera;
            &&& ready && p.missing.len() > 0 ==> reached(p, 7) == Err::<
                BuildStep<Seq<char>>,
                Seq<char>,
            >(
                "model files missing: "@ + crate::text::join(p.missing, ", "@)
                    + " — run 'sudo facelock setup' to download them"@,
            )
            &&& ready && p.missing.len() == 0 && p.engine is Some ==> reached(p, 7) == Err::<
                BuildStep<Seq<char>>,
                Seq<char>,
            >("failed to load face engine: "@ + p.engine->0)
            &&& ready && p.missing.len() == 0 && p.engine is None && p.store is Some ==> reached(
                p,
                7,
            ) == Err::<BuildStep<Seq<char>>, Seq<char>>("failed to open database: "@ + p.store->0)
        }),
{
    reveal_with_fuel(reached, 8);
}

/// The provider is warned of exactly where inference will not use it or nobody can
/// say, and an unknown name is left to the engine.
pub proof fn law_a_missing_provider_is_warned_of(status: EpStatus<Seq<char>>)
    ensures
        provider_line(status) matches Some(Notice::Warning(_)) <==> status is NotBuiltIn
            || status is Unqueryable,
        provider_line(status) matches Some(Notice::Info(_)) <==> status is Available,
        provider_line(status) is None <==> status is UnknownName,
        status matches EpStatus::Unqueryable(e) ==> (provider_line(status) matches Some(
            Notice::Warning(text),
        ) && crate::text::has_suffix(text, e)),
{
    if let EpStatus::Unqueryable(e) = status {
        let front = "could not query ONNX Runtime for provider availability: "@;
        crate::text::law_suffix_is_a_back_part(front + e, e);
        assert(front + e == front + e);
    }
}

/// The handler takes a camera for infrared only if the camera showed that it is,
/// and has a warm-up of a quirk only of a camera that could be queried.
pub proof fn law_only_a_shown_camera_is_infrared(
    shown: Option<ShownDevice>,
    fingerprint: DeviceFingerprint,
)
    ensures
        handler_device(shown, fingerprint).caps.is_ir <==> (shown matches Some(device)
            && device.caps.is_ir),
        shown is None ==> handler_device(shown, fingerprint).caps.fingerprint == fingerprint
            && handler_device(shown, fingerprint).warmup_override is None,
{
}

/// The store is opened only after the state directory was brought in order.
pub proof fn law_layout_comes_before_the_store(p: Preparations, n: nat)
    ensures
        reached(p, n) matches Ok(step) && (step is OpenStore || step is Serve) ==> p.layout is None,
{
    lemma_past_layout(p, n);
}

proof fn lemma_past_layout(p: Preparations, n: nat)
    ensures
        match reached(p, n) {
            Ok(step) => step is EnsureLayout || p.layout is None,
            Err(_) => true,
        },
    decreases n,
{
    if n > 0 {
        lemma_past_layout(p, (n - 1) as nat);
    }
}

} // verus!
