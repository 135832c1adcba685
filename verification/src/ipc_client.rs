//! The client's side of the conversation with the daemon: which call a request
//! becomes, what a reply means, and what an unprivileged caller is told.

use crate::text::{same, to_lowercase, trimmed};
use vstd::prelude::*;
use vstd::string::*;

verus! {

// ---------------------------------------------------------------------------
// Requests
// ---------------------------------------------------------------------------

/// What the command line asks of the daemon.
#[derive(Debug, Clone, PartialEq, Eq)]
pub enum DaemonRequest<S = String> {
    Authenticate { user: S },
    Enroll { user: S, label: S },
    ListModels { user: S },
    RemoveModel { user: S, model_id: u32 },
    ClearModels { user: S },
    PreviewFrame,
    PreviewDetectFrame { user: S },
    ListDevices,
    ReleaseCamera,
    Ping,
    Shutdown,
}

impl View for DaemonRequest<String> {
    type V = DaemonRequest<Seq<char>>;

    open spec fn view(&self) -> DaemonRequest<Seq<char>> {
        match *self {
            DaemonRequest::Authenticate { user } => DaemonRequest::Authenticate { user: user@ },
            DaemonRequest::Enroll { user, label } => DaemonRequest::Enroll {
                user: user@,
                label: label@,
            },
            DaemonRequest::ListModels { user } => DaemonRequest::ListModels { user: user@ },
            DaemonRequest::RemoveModel { user, model_id } => DaemonRequest::RemoveModel {
                user: user@,
                model_id,
            },
            DaemonRequest::ClearModels { user } => DaemonRequest::ClearModels { user: user@ },
            DaemonRequest::PreviewFrame => DaemonRequest::PreviewFrame,
            DaemonRequest::PreviewDetectFrame { user } => DaemonRequest::PreviewDetectFrame {
                user: user@,
            },
            DaemonRequest::ListDevices => DaemonRequest::ListDevices,
            DaemonRequest::ReleaseCamera => DaemonRequest::ReleaseCamera,
            DaemonRequest::Ping => DaemonRequest::Ping,
            DaemonRequest::Shutdown => DaemonRequest::Shutdown,
        }
    }
}

/// The arguments of a method call.
#[derive(Debug, Clone, PartialEq, Eq)]
pub enum Arguments<S = String> {
    Nothing,
    Text(S),
    TwoTexts(S, S),
    TextAndNumber(S, u32),
}

impl View for Arguments<String> {
    type V = Arguments<Seq<char>>;

    open spec fn view(&self) -> Arguments<Seq<char>> {
        match *self {
            Arguments::Nothing => Arguments::Nothing,
            Arguments::Text(a) => Arguments::Text(a@),
            Arguments::TwoTexts(a, b) => Arguments::TwoTexts(a@, b@),
            Arguments::TextAndNumber(a, n) => Arguments::TextAndNumber(a@, n),
        }
    }
}

/// A method call on the daemon's interface.
#[derive(Debug)]
pub struct MethodCall {
    pub method: &'static str,
    pub arguments: Arguments,
}

/// The method that carries a request.
pub open spec fn method_of<S>(request: DaemonRequest<S>) -> Seq<char> {
    match request {
        DaemonRequest::Authenticate { .. } => "Authenticate"@,
        DaemonRequest::Enroll { .. } => "Enroll"@,
        DaemonRequest::ListModels { .. } => "ListModels"@,
        DaemonRequest::RemoveModel { .. } => "RemoveModel"@,
        DaemonRequest::ClearModels { .. } => "ClearModels"@,
        DaemonRequest::PreviewFrame => "PreviewFrame"@,
        DaemonRequest::PreviewDetectFrame { .. } => "PreviewDetectFrame"@,
        DaemonRequest::ListDevices => "ListDevices"@,
        DaemonRequest::ReleaseCamera => "ReleaseCamera"@,
        DaemonRequest::Ping => "Ping"@,
        DaemonRequest::Shutdown => "Shutdown"@,
    }
}

/// The arguments that a request carries.
pub open spec fn arguments_of<S>(request: DaemonRequest<S>) -> Arguments<S> {
    match request {
        DaemonRequest::Authenticate { user } => Arguments::Text(user),
        DaemonRequest::Enroll { user, label } => Arguments::TwoTexts(user, label),
        DaemonRequest::ListModels { user } => Arguments::Text(user),
        DaemonRequest::RemoveModel { user, model_id } => Arguments::TextAndNumber(user, model_id),
        DaemonRequest::ClearModels { user } => Arguments::Text(user),
        DaemonRequest::PreviewFrame => Arguments::Nothing,
        DaemonRequest::PreviewDetectFrame { user } => Arguments::Text(user),
        DaemonRequest::ListDevices => Arguments::Nothing,
        DaemonRequest::ReleaseCamera => Arguments::Nothing,
        DaemonRequest::Ping => Arguments::Nothing,
        DaemonRequest::Shutdown => Arguments::Nothing,
    }
}

/// The call that a request becomes.
pub fn method_call(request: &DaemonRequest) -> (r: MethodCall)
    ensures
        r.method@ == method_of(request@),
        r.arguments@ == arguments_of(request@),
{
    match request {
        DaemonRequest::Authenticate { user } => MethodCall {
            method: "Authenticate",
            arguments: Arguments::Text(user.clone()),
        },
        DaemonRequest::Enroll { user, label } => MethodCall {
            method: "Enroll",
            arguments: Arguments::TwoTexts(user.clone(), label.clone()),
        },
        DaemonRequest::ListModels { user } => MethodCall {
            method: "ListModels",
            arguments: Arguments::Text(user.clone()),
        },
        DaemonRequest::RemoveModel { user, model_id } => MethodCall {
            method: "RemoveModel",
            arguments: Arguments::TextAndNumber(user.clone(), *model_id),
        },
        DaemonRequest::ClearModels { user } => MethodCall {
            method: "ClearModels",
            arguments: Arguments::Text(user.clone()),
        },
        DaemonRequest::PreviewFrame => MethodCall {
            method: "PreviewFrame",
            arguments: Arguments::Nothing,
        },
        DaemonRequest::PreviewDetectFrame { user } => MethodCall {
            method: "PreviewDetectFrame",
            arguments: Arguments::Text(user.clone()),
        },
        DaemonRequest::ListDevices => MethodCall {
            method: "ListDevices",
            arguments: Arguments::Nothing,
        },
        DaemonRequest::ReleaseCamera => MethodCall {
            method: "ReleaseCamera",
            arguments: Arguments::Nothing,
        },
        DaemonRequest::Ping => MethodCall { method: "Ping", arguments: Arguments::Nothing },
        DaemonRequest::Shutdown => MethodCall {
            method: "Shutdown",
            arguments: Arguments::Nothing,
        },
    }
}

// ---------------------------------------------------------------------------
// Replies
// ---------------------------------------------------------------------------

/// The verdict of an authentication as it travels on the bus. Its similarity
/// score is a float and travels beside it.
#[derive(Debug, Clone, PartialEq, Eq)]
pub struct AuthResult<S = String> {
    pub matched: bool,
    pub model_id: i32,
    pub label: S,
}

/// A face model as it travels on the bus: no device is the empty text.
#[derive(Debug, Clone, PartialEq, Eq)]
pub struct ModelInfo<S = String> {
    pub id: u32,
    pub user: S,
    pub label: S,
    pub created_at: u64,
    pub embedder_model: S,
    pub device_id: S,
}

/// A camera as it travels on the bus: without its formats.
#[derive(Debug, Clone, PartialEq, Eq)]
pub struct BusDevice<S = String> {
    pub path: S,
    pub name: S,
    pub driver: S,
    pub is_ir: bool,
}

/// What a method call returned.
#[derive(Debug)]
pub enum Reply {
    Nothing,
    Text(String),
    Verdict(AuthResult),
    Enrolled(u32, u32),
    Models(Vec<ModelInfo>),
    Frame(Vec<u8>),
    /// A frame, and of each face in it whether it was recognized.
    DetectFrame(Vec<u8>, Vec<bool>),
    Devices(Vec<BusDevice>),
}

/// A face model as the commands see it.
#[derive(Debug, Clone, PartialEq, Eq)]
pub struct FaceModelInfo<S = String> {
    pub id: u32,
    pub user: S,
    pub label: S,
    /// Seconds since the epoch.
    pub created_at: u64,
    pub embedder_model: S,
    /// The camera it was enrolled on; none for a model that fits any camera.
    pub device_id: Option<S>,
}

/// Why a face that matched was not accepted.
#[derive(Debug, Clone, Copy, PartialEq, Eq, Structural)]
pub enum AuthFailureReason {
    /// The frames were too much alike for a living face.
    VarianceNotSatisfied,
}

/// The verdict of an authentication as the commands see it.
#[derive(Debug, Clone, PartialEq, Eq)]
pub struct MatchResult<S = String> {
    pub matched: bool,
    pub model_id: Option<u32>,
    pub label: Option<S>,
    /// The bus does not carry it.
    pub failure_reason: Option<AuthFailureReason>,
}

/// What a request came to.
#[derive(Debug)]
pub enum DaemonResponse {
    Done,
    Removed,
    Suppressed,
    Error { message: String },
    AuthResult(MatchResult),
    Enrolled { model_id: u32, embedding_count: u32 },
    Models(Vec<FaceModelInfo>),
    Frame { jpeg_data: Vec<u8> },
    DetectFrame { jpeg_data: Vec<u8>, recognized: Vec<bool> },
    Devices(Vec<BusDevice>),
}

impl View for AuthResult<String> {
    type V = AuthResult<Seq<char>>;

    open spec fn view(&self) -> AuthResult<Seq<char>> {
        AuthResult { matched: self.matched, model_id: self.model_id, label: self.label@ }
    }
}

impl View for ModelInfo<String> {
    type V = ModelInfo<Seq<char>>;

    open spec fn view(&self) -> ModelInfo<Seq<char>> {
        ModelInfo {
            id: self.id,
            user: self.user@,
            label: self.label@,
            created_at: self.created_at,
            embedder_model: self.embedder_model@,
            device_id: self.device_id@,
        }
    }
}

impl View for BusDevice<String> {
    type V = BusDevice<Seq<char>>;

    open spec fn view(&self) -> BusDevice<Seq<char>> {
        BusDevice {
            path: self.path@,
            name: self.name@,
            driver: self.driver@,
            is_ir: self.is_ir,
        }
    }
}

impl View for FaceModelInfo<String> {
    type V = FaceModelInfo<Seq<char>>;

    open spec fn view(&self) -> FaceModelInfo<Seq<char>> {
        FaceModelInfo {
            id: self.id,
            user: self.user@,
            label: self.label@,
            created_at: self.created_at,
            embedder_model: self.embedder_model@,
            device_id: crate::text::opt_text(self.device_id),
        }
    }
}

impl View for MatchResult<String> {
    type V = MatchResult<Seq<char>>;

    open spec fn view(&self) -> MatchResult<Seq<char>> {
        MatchResult {
            matched: self.matched,
            model_id: self.model_id,
            label: crate::text::opt_text(self.label),
            failure_reason: self.failure_reason,
        }
    }
}

/// A reply with sequences in place of vectors and strings.
pub enum ReplyView {
    Nothing,
    Text(Seq<char>),
    Verdict(AuthResult<Seq<char>>),
    Enrolled(u32, u32),
    Models(Seq<ModelInfo<Seq<char>>>),
    Frame(Seq<u8>),
    DetectFrame(Seq<u8>, Seq<bool>),
    Devices(Seq<BusDevice<Seq<char>>>),
}

/// A response with sequences in place of vectors and strings.
pub enum ResponseView {
    Done,
    Removed,
    Suppressed,
    Error { message: Seq<char> },
    AuthResult(MatchResult<Seq<char>>),
    Enrolled { model_id: u32, embedding_count: u32 },
    Models(Seq<FaceModelInfo<Seq<char>>>),
    Frame { jpeg_data: Seq<u8> },
    DetectFrame { jpeg_data: Seq<u8>, recognized: Seq<bool> },
    Devices(Seq<BusDevice<Seq<char>>>),
}

impl View for Reply {
    type V = ReplyView;

    open spec fn view(&self) -> ReplyView {
        match *self {
            Reply::Nothing => ReplyView::Nothing,
            Reply::Text(t) => ReplyView::Text(t@),
            Reply::Verdict(v) => ReplyView::Verdict(v@),
            Reply::Enrolled(id, count) => ReplyView::Enrolled(id, count),
            Reply::Models(models) => ReplyView::Models(
                models@.map_values(|m: ModelInfo| m@),
            ),
            Reply::Frame(jpeg) => ReplyView::Frame(jpeg@),
            Reply::DetectFrame(jpeg, recognized) => ReplyView::DetectFrame(jpeg@, recognized@),
            Reply::Devices(devices) => ReplyView::Devices(
                devices@.map_values(|d: BusDevice| d@),
            ),
        }
    }
}

/// The models with sequences in place of strings.
pub open spec fn models_view(models: Seq<FaceModelInfo>) -> Seq<FaceModelInfo<Seq<char>>> {
    models.map_values(|m: FaceModelInfo| m@)
}

impl View for DaemonResponse {
    type V = ResponseView;

    open spec fn view(&self) -> ResponseView {
        match *self {
            DaemonResponse::Done => ResponseView::Done,
            DaemonResponse::Removed => ResponseView::Removed,
            DaemonResponse::Suppressed => ResponseView::Suppressed,
            DaemonResponse::Error { message } => ResponseView::Error { message: message@ },
            DaemonResponse::AuthResult(m) => ResponseView::AuthResult(m@),
            DaemonResponse::Enrolled { model_id, embedding_count } => ResponseView::Enrolled {
                model_id,
                embedding_count,
            },
            DaemonResponse::Models(models) => ResponseView::Models(models_view(models@)),
            DaemonResponse::Frame { jpeg_data } => ResponseView::Frame { jpeg_data: jpeg_data@ },
            DaemonResponse::DetectFrame { jpeg_data, recognized } => ResponseView::DetectFrame {
                jpeg_data: jpeg_data@,
                recognized: recognized@,
            },
            DaemonResponse::Devices(devices) => ResponseView::Devices(
                devices@.map_values(|d: BusDevice| d@),
            ),
        }
    }
}

/// The number that stands for a recoverable daemon error, whose message is the
/// label.
pub const MODEL_ID_ERROR: i32 = -2;

/// The number that stands for a suppressed attempt: nobody is enrolled.
pub const MODEL_ID_SUPPRESSED: i32 = -3;

/// What an authentication verdict means.
pub open spec fn verdict(result: AuthResult<Seq<char>>) -> ResponseView {
    if !result.matched && result.model_id == MODEL_ID_ERROR {
        ResponseView::Error { message: result.label }
    } else if !result.matched && result.model_id == MODEL_ID_SUPPRESSED {
        ResponseView::Suppressed
    } else {
        ResponseView::AuthResult(
            MatchResult {
                matched: result.matched,
                model_id: if result.model_id >= 0 {
                    Some(result.model_id as u32)
                } else {
                    None
                },
                label: if result.label.len() == 0 {
                    None
                } else {
                    Some(result.label)
                },
                failure_reason: None,
            },
        )
    }
}

/// A model off the bus.
pub open spec fn received_model(m: ModelInfo<Seq<char>>) -> FaceModelInfo<Seq<char>> {
    FaceModelInfo {
        id: m.id,
        user: m.user,
        label: m.label,
        created_at: m.created_at,
        embedder_model: m.embedder_model,
        device_id: if m.device_id.len() == 0 {
            None
        } else {
            Some(m.device_id)
        },
    }
}

/// What a reply to a request means; none where the reply is not of the kind
/// that the request's method returns.
pub open spec fn response_to<S>(
    request: DaemonRequest<S>,
    reply: ReplyView,
) -> Option<ResponseView> {
    match (request, reply) {
        (DaemonRequest::Authenticate { .. }, ReplyView::Verdict(v)) => Some(verdict(v)),
        (DaemonRequest::Enroll { .. }, ReplyView::Enrolled(id, count)) => Some(
            ResponseView::Enrolled { model_id: id, embedding_count: count },
        ),
        (DaemonRequest::ListModels { .. }, ReplyView::Models(models)) => Some(
            ResponseView::Models(models.map_values(|m: ModelInfo<Seq<char>>| received_model(m))),
        ),
        (DaemonRequest::RemoveModel { .. }, ReplyView::Nothing) => Some(ResponseView::Removed),
        (DaemonRequest::ClearModels { .. }, ReplyView::Nothing) => Some(ResponseView::Removed),
        (DaemonRequest::PreviewFrame, ReplyView::Frame(jpeg_data)) => Some(
            ResponseView::Frame { jpeg_data },
        ),
        (
            DaemonRequest::PreviewDetectFrame { .. },
            ReplyView::DetectFrame(jpeg_data, recognized),
        ) => Some(ResponseView::DetectFrame { jpeg_data, recognized }),
        (DaemonRequest::ListDevices, ReplyView::Devices(devices)) => Some(
            ResponseView::Devices(devices),
        ),
        (DaemonRequest::ReleaseCamera, ReplyView::Nothing) => Some(ResponseView::Done),
        (DaemonRequest::Ping, ReplyView::Text(_)) => Some(ResponseView::Done),
        (DaemonRequest::Shutdown, ReplyView::Nothing) => Some(ResponseView::Done),
        _ => None,
    }
}

/// What an authentication verdict means.
pub fn auth_response(result: AuthResult) -> (r: DaemonResponse)
    ensures
        r@ == verdict(result@),
{
    if !result.matched && result.model_id == MODEL_ID_ERROR {
        return DaemonResponse::Error { message: result.label };
    }
    if !result.matched && result.model_id == MODEL_ID_SUPPRESSED {
        return DaemonResponse::Suppressed;
    }
    let model_id: Option<u32> = if result.model_id >= 0 {
        Some(result.model_id as u32)
    } else {
        None
    };
    let unlabelled = same(result.label.as_str(), "");
    proof {
        reveal_strlit("");
        assert(result.label@.len() == 0 ==> result.label@ =~= ""@);
    }
    DaemonResponse::AuthResult(
        MatchResult {
            matched: result.matched,
            model_id,
            label: if unlabelled {
                None
            } else {
                Some(result.label)
            },
            failure_reason: None,
        },
    )
}

/// A model off the bus: the empty device is no device.
pub fn model_of(m: &ModelInfo) -> (r: FaceModelInfo)
    ensures
        r@ == received_model(m@),
{
    let any_device = same(m.device_id.as_str(), "");
    proof {
        reveal_strlit("");
        assert(m.device_id@.len() == 0 ==> m.device_id@ =~= ""@);
    }
    FaceModelInfo {
        id: m.id,
        user: m.user.clone(),
        label: m.label.clone(),
        created_at: m.created_at,
        embedder_model: m.embedder_model.clone(),
        device_id: if any_device {
            None
        } else {
            Some(m.device_id.clone())
        },
    }
}

fn models_of(models: &Vec<ModelInfo>) -> (r: Vec<FaceModelInfo>)
    ensures
        models_view(r@) =~= models@.map_values(|m: ModelInfo| received_model(m@)),
{
    let mut out: Vec<FaceModelInfo> = Vec::new();
    let mut i: usize = 0;
    while i < models.len()
        invariant
            i <= models.len(),
            out.len() == i,
            forall|j: int| 0 <= j < i ==> (#[trigger] out[j])@ == received_model(models[j]@),
        decreases models.len() - i,
    {
        out.push(model_of(&models[i]));
        i += 1;
    }
    out
}

/// What a reply to a request means; none where the reply is not of the kind
/// that the request's method returns.
pub fn response(request: &DaemonRequest, reply: Reply) -> (r: Option<DaemonResponse>)
    ensures
        match r {
            Some(response) => response_to(request@, reply@) == Some(response@),
            None => response_to(request@, reply@) is None,
        },
{
    match (request, reply) {
        (DaemonRequest::Authenticate { .. }, Reply::Verdict(v)) => Some(auth_response(v)),
        (DaemonRequest::Enroll { .. }, Reply::Enrolled(id, count)) => Some(
            DaemonResponse::Enrolled { model_id: id, embedding_count: count },
        ),
        (DaemonRequest::ListModels { .. }, Reply::Models(models)) => {
            let received = models_of(&models);
            assert(models@.map_values(|m: ModelInfo| m@).map_values(
                |m: ModelInfo<Seq<char>>| received_model(m),
            ) =~= models_view(received@));
            Some(DaemonResponse::Models(received))
        },
        (DaemonRequest::RemoveModel { .. }, Reply::Nothing) => Some(DaemonResponse::Removed),
        (DaemonRequest::ClearModels { .. }, Reply::Nothing) => Some(DaemonResponse::Removed),
        (DaemonRequest::PreviewFrame, Reply::Frame(jpeg_data)) => Some(
            DaemonResponse::Frame { jpeg_data },
        ),
        (DaemonRequest::PreviewDetectFrame { .. }, Reply::DetectFrame(jpeg_data, recognized)) =>
            Some(DaemonResponse::DetectFrame { jpeg_data, recognized }),
        (DaemonRequest::ListDevices, Reply::Devices(devices)) => Some(
            DaemonResponse::Devices(devices),
        ),
        (DaemonRequest::ReleaseCamera, Reply::Nothing) => Some(DaemonResponse::Done),
        (DaemonRequest::Ping, Reply::Text(_)) => Some(DaemonResponse::Done),
        (DaemonRequest::Shutdown, Reply::Nothing) => Some(DaemonResponse::Done),
        _ => None,
    }
}

// ---------------------------------------------------------------------------
// Failures
// ---------------------------------------------------------------------------

/// One cause of a failed call, outermost first in a chain of them.
#[derive(Debug, Clone, PartialEq, Eq)]
pub enum Cause<S = String> {
    /// A sentence that was put before the causes below it.
    Context(S),
    /// The peer answered the call with the named error.
    MethodError { name: S, message: S },
    /// The bus itself denied access.
    AccessDenied(S),
    Other(S),
}

impl View for Cause<String> {
    type V = Cause<Seq<char>>;

    open spec fn view(&self) -> Cause<Seq<char>> {
        match *self {
            Cause::Context(s) => Cause::Context(s@),
            Cause::MethodError { name, message } => Cause::MethodError {
                name: name@,
                message: message@,
            },
            Cause::AccessDenied(s) => Cause::AccessDenied(s@),
            Cause::Other(s) => Cause::Other(s@),
        }
    }
}

/// The chain with sequences in place of strings.
pub open spec fn chain_view(chain: Seq<Cause>) -> Seq<Cause<Seq<char>>> {
    chain.map_values(|c: Cause| c@)
}

/// The error name of a denied call.
pub const ACCESS_DENIED: &'static str = "org.freedesktop.DBus.Error.AccessDenied";

/// What to do about a denial by the bus policy.
pub const GROUP_HINT: &'static str =
    "Access denied by D-Bus policy. Daemon commands require root or membership in the 'facelock' group:\n  sudo usermod -aG facelock $USER\nthen log out and back in (or re-run: sudo facelock setup)";

/// Whether a cause is an access denial, by the bus or by the daemon.
pub open spec fn denies(cause: Cause<Seq<char>>) -> bool {
    match cause {
        Cause::MethodError { name, .. } => name == ACCESS_DENIED@,
        Cause::AccessDenied(_) => true,
        _ => false,
    }
}

/// Whether any cause of the chain is an access denial.
pub open spec fn denied(chain: Seq<Cause<Seq<char>>>) -> bool {
    exists|i: int| 0 <= i < chain.len() && denies(#[trigger] chain[i])
}

/// The chain, under the group hint if it holds a denial.
pub open spec fn hinted(chain: Seq<Cause<Seq<char>>>) -> Seq<Cause<Seq<char>>> {
    if denied(chain) {
        seq![Cause::Context(GROUP_HINT@)] + chain
    } else {
        chain
    }
}

fn denies_access(cause: &Cause) -> (r: bool)
    ensures
        r == denies(cause@),
{
    match cause {
        Cause::MethodError { name, .. } => same(name.as_str(), ACCESS_DENIED),
        Cause::AccessDenied(_) => true,
        _ => false,
    }
}

/// Whether any cause of the chain is an access denial.
pub fn is_access_denied(chain: &Vec<Cause>) -> (r: bool)
    ensures
        r == denied(chain_view(chain@)),
{
    let mut i: usize = 0;
    while i < chain.len()
        invariant
            i <= chain.len(),
            forall|j: int| 0 <= j < i ==> !denies(#[trigger] chain_view(chain@)[j]),
        decreases chain.len() - i,
    {
        if denies_access(&chain[i]) {
            assert(denies(chain_view(chain@)[i as int]));
            return true;
        }
        i += 1;
    }
    false
}

fn under_context(sentence: String, chain: Vec<Cause>) -> (r: Vec<Cause>)
    ensures
        chain_view(r@) == seq![Cause::Context(sentence@)] + chain_view(chain@),
{
    let ghost before = chain_view(chain@);
    let mut chain = chain;
    chain.insert(0, Cause::Context(sentence));
    assert(chain_view(chain@) =~= seq![Cause::Context(sentence@)] + before);
    chain
}

/// Puts the group hint before a chain that holds an access denial. Any other
/// chain is handed back as it is.
pub fn add_group_hint(chain: Vec<Cause>) -> (r: Vec<Cause>)
    ensures
        chain_view(r@) == hinted(chain_view(chain@)),
{
    if is_access_denied(&chain) {
        under_context(String::from_str(GROUP_HINT), chain)
    } else {
        chain
    }
}

/// How far a call got.
#[derive(Debug)]
pub enum Called {
    /// The system bus could not be reached.
    Unconnected { error: String },
    /// There is no handle on the daemon's object.
    Unaddressed { error: String },
    /// The call failed.
    Failed(Vec<Cause>),
    /// The call returned.
    Returned(Reply),
}

/// The chain under which a failed call of the method is reported.
pub open spec fn call_failed(method: Seq<char>, chain: Seq<Cause<Seq<char>>>) -> Seq<
    Cause<Seq<char>>,
> {
    hinted(seq![Cause::Context("D-Bus "@ + method + " call failed"@)] + chain)
}

/// What a request comes to, by how far its call got.
pub open spec fn outcome_of<S>(request: DaemonRequest<S>, called: Called) -> Result<
    ResponseView,
    Seq<Cause<Seq<char>>>,
> {
    match called {
        Called::Unconnected { error } => Err(
            seq![Cause::Other("D-Bus connection failed: "@ + error@)],
        ),
        Called::Unaddressed { error } => Err(
            seq![Cause::Other("D-Bus proxy failed: "@ + error@)],
        ),
        Called::Failed(chain) => Err(call_failed(method_of(request), chain_view(chain@))),
        Called::Returned(reply) => match response_to(request, reply@) {
            Some(response) => Ok(response),
            None => Err(call_failed(method_of(request), Seq::empty())),
        },
    }
}

fn failed_under_method(method: &str, chain: Vec<Cause>) -> (r: Vec<Cause>)
    ensures
        chain_view(r@) == call_failed(method@, chain_view(chain@)),
{
    let mut sentence = String::from_str("D-Bus ");
    sentence.append(method);
    sentence.append(" call failed");
    add_group_hint(under_context(sentence, chain))
}

/// What a request comes to, once its call was made: the response, or the chain
/// of causes, with the group hint where access was denied.
pub fn send_request(request: &DaemonRequest, called: Called) -> (r: Result<
    DaemonResponse,
    Vec<Cause>,
>)
    ensures
        match r {
            Ok(response) => outcome_of(request@, called) == Ok::<
                ResponseView,
                Seq<Cause<Seq<char>>>,
            >(response@),
            Err(chain) => outcome_of(request@, called) == Err::<
                ResponseView,
                Seq<Cause<Seq<char>>>,
            >(chain_view(chain@)),
        },
{
    let call = method_call(request);
    match called {
        Called::Unconnected { error } => {
            let mut sentence = String::from_str("D-Bus connection failed: ");
            sentence.append(error.as_str());
            let mut chain: Vec<Cause> = Vec::new();
            chain.push(Cause::Other(sentence));
            assert(chain_view(chain@) =~= seq![Cause::Other("D-Bus connection failed: "@ + error@)]);
            Err(chain)
        },
        Called::Unaddressed { error } => {
            let mut sentence = String::from_str("D-Bus proxy failed: ");
            sentence.append(error.as_str());
            let mut chain: Vec<Cause> = Vec::new();
            chain.push(Cause::Other(sentence));
            assert(chain_view(chain@) =~= seq![Cause::Other("D-Bus proxy failed: "@ + error@)]);
            Err(chain)
        },
        Called::Failed(chain) => Err(failed_under_method(call.method, chain)),
        Called::Returned(reply) => match response(request, reply) {
            Some(response) => Ok(response),
            None => {
                let chain: Vec<Cause> = Vec::new();
                assert(chain_view(chain@) =~= Seq::empty());
                Err(failed_under_method(call.method, chain))
            },
        },
    }
}

// ---------------------------------------------------------------------------
// The caller
// ---------------------------------------------------------------------------

/// The refusal of an unprivileged caller.
pub open spec fn root_refusal(hint: Seq<char>) -> Seq<char> {
    "Root required.\n  Run: "@ + hint
}

/// How a command that needs root goes on.
#[derive(Debug)]
pub enum RootStep<S = String> {
    /// The caller is root.
    Proceed,
    /// Offer to run again under sudo.
    Offer,
    /// Run again under sudo, with the same arguments.
    Escalate,
    Refuse { message: S },
}

impl View for RootStep<String> {
    type V = RootStep<Seq<char>>;

    open spec fn view(&self) -> RootStep<Seq<char>> {
        match *self {
            RootStep::Proceed => RootStep::Proceed,
            RootStep::Offer => RootStep::Offer,
            RootStep::Escalate => RootStep::Escalate,
            RootStep::Refuse { message } => RootStep::Refuse { message: message@ },
        }
    }
}

fn refused(hint: &str) -> (r: String)
    ensures
        r@ == root_refusal(hint@),
{
    let mut message = String::from_str("Root required.\n  Run: ");
    message.append(hint);
    message
}

/// What a command that needs root does first.
pub open spec fn root_step(hint: Seq<char>, is_root: bool, stdin_is_tty: bool) -> RootStep<
    Seq<char>,
> {
    if is_root {
        RootStep::Proceed
    } else if stdin_is_tty {
        RootStep::Offer
    } else {
        RootStep::Refuse { message: root_refusal(hint) }
    }
}

/// What was typed at a question, without the space around it and in lower case.
pub open spec fn answer_in(input: Seq<char>) -> Seq<char> {
    crate::text::lowercase(crate::text::trim(input))
}

/// What follows the answer to the offer of sudo.
pub open spec fn after_answer(hint: Seq<char>, input: Seq<char>) -> RootStep<Seq<char>> {
    if answer_in(input) == "n"@ || answer_in(input) == "no"@ {
        RootStep::Refuse { message: root_refusal(hint) }
    } else {
        RootStep::Escalate
    }
}

/// Whether the line that was typed at a question confirms it.
pub open spec fn confirmed(input: Seq<char>) -> bool {
    answer_in(input) == "y"@ || answer_in(input) == "yes"@
}

/// Whether to work without the daemon.
pub open spec fn works_direct(oneshot: bool, name_has_owner: Option<bool>) -> bool {
    oneshot || name_has_owner != Some(true)
}

/// What a command that needs root does first. `hint` is the command to run
/// instead, such as "sudo facelock setup".
pub fn require_root(hint: &str, is_root: bool, stdin_is_tty: bool) -> (r: RootStep)
    ensures
        r@ == root_step(hint@, is_root, stdin_is_tty),
{
    if is_root {
        return RootStep::Proceed;
    }
    if !stdin_is_tty {
        return RootStep::Refuse { message: refused(hint) };
    }
    RootStep::Offer
}

/// The same for a command that scripts run: it never offers.
pub fn require_root_scripted(hint: &str, is_root: bool) -> (r: Result<(), String>)
    ensures
        match r {
            Ok(_) => root_step(hint@, is_root, false) is Proceed,
            Err(message) => root_step(hint@, is_root, false) == (RootStep::Refuse {
                message: message@,
            }),
        },
{
    if is_root {
        Ok(())
    } else {
        Err(refused(hint))
    }
}

/// Whether a trimmed answer in lower case declines an offer.
pub fn declines(answer: &str) -> (r: bool)
    ensures
        r == (answer@ == "n"@ || answer@ == "no"@),
{
    same(answer, "n") || same(answer, "no")
}

/// Whether a trimmed answer in lower case accepts a question.
pub fn accepts(answer: &str) -> (r: bool)
    ensures
        r == (answer@ == "y"@ || answer@ == "yes"@),
{
    same(answer, "y") || same(answer, "yes")
}

/// What follows the answer to the offer of sudo: only a plain no declines it.
pub fn root_answered(hint: &str, input: &str) -> (r: RootStep)
    ensures
        r@ == after_answer(hint@, input@),
{
    let answer = to_lowercase(trimmed(input).as_str());
    if declines(answer.as_str()) {
        RootStep::Refuse { message: refused(hint) }
    } else {
        RootStep::Escalate
    }
}

/// Whether the line that was typed at a question confirms it: only a plain yes
/// does.
pub fn confirm(input: &str) -> (r: bool)
    ensures
        r == confirmed(input@),
{
    let answer = to_lowercase(trimmed(input).as_str());
    accepts(answer.as_str())
}

/// Whether to work without the daemon: the configuration says so, or nothing is
/// known to own its bus name.
pub fn should_use_direct(oneshot: bool, name_has_owner: Option<bool>) -> (r: bool)
    ensures
        r == works_direct(oneshot, name_has_owner),
{
    if oneshot {
        return true;
    }
    match name_has_owner {
        Some(owned) => !owned,
        None => true,
    }
}

/// The names under which the caller may be known.
#[derive(Debug, Clone)]
pub struct CallerNames {
    pub sudo_user: Option<String>,
    pub doas_user: Option<String>,
    pub user: Option<String>,
    /// The account of the real user number, where the password file has one.
    pub account: Option<String>,
}

/// The user that a command acts on.
pub open spec fn target_user(flag: Option<Seq<char>>, names: CallerNames) -> Seq<char> {
    match (flag, names.sudo_user, names.doas_user, names.user, names.account) {
        (Some(name), _, _, _, _) => name,
        (None, Some(name), _, _, _) => name@,
        (None, None, Some(name), _, _) => name@,
        (None, None, None, Some(name), _) => name@,
        (None, None, None, None, Some(name)) => name@,
        (None, None, None, None, None) => "unknown"@,
    }
}

/// The user that a command acts on: the one named by the flag, else the one
/// behind `sudo` or `doas`, else the current one.
pub fn resolve_user(flag: Option<&str>, names: &CallerNames) -> (r: String)
    ensures
        r@ == target_user(
            match flag {
                Some(f) => Some(f@),
                None => None,
            },
            *names,
        ),
{
    if let Some(name) = flag {
        return String::from_str(name);
    }
    if let Some(name) = &names.sudo_user {
        return name.clone();
    }
    if let Some(name) = &names.doas_user {
        return name.clone();
    }
    if let Some(name) = &names.user {
        return name.clone();
    }
    if let Some(name) = &names.account {
        return name.clone();
    }
    String::from_str("unknown")
}

// ---------------------------------------------------------------------------
// Laws
// ---------------------------------------------------------------------------

/// An unmatched verdict never carries the numbers that stand for an error or for
/// suppression on to the commands, and a verdict that says matched is never
/// taken for either.
pub proof fn law_sentinels_never_reach_the_commands(result: AuthResult<Seq<char>>)
    ensures
        verdict(result) matches ResponseView::AuthResult(m) ==> m.matched == result.matched && (
        m.model_id matches Some(id) ==> result.model_id >= 0 && id == result.model_id),
        result.matched ==> verdict(result) is AuthResult,
        verdict(result) is Error ==> result.model_id == MODEL_ID_ERROR,
        verdict(result) is Suppressed ==> result.model_id == MODEL_ID_SUPPRESSED,
{
}

/// Different requests become different calls.
pub proof fn law_calls_tell_requests_apart(a: DaemonRequest<Seq<char>>, b: DaemonRequest<Seq<char>>)
    requires
        method_of(a) == method_of(b),
        arguments_of(a) == arguments_of(b),
    ensures
        a == b,
{
    reveal_strlit("Authenticate");
    reveal_strlit("Enroll");
    reveal_strlit("ListModels");
    reveal_strlit("RemoveModel");
    reveal_strlit("ClearModels");
    reveal_strlit("PreviewFrame");
    reveal_strlit("PreviewDetectFrame");
    reveal_strlit("ListDevices");
    reveal_strlit("ReleaseCamera");
    reveal_strlit("Ping");
    reveal_strlit("Shutdown");
    assert("Authenticate"@.len() == 12 && "Authenticate"@[0] == 'A');
    assert("Enroll"@.len() == 6 && "Enroll"@[0] == 'E');
    assert("ListModels"@.len() == 10 && "ListModels"@[0] == 'L');
    assert("RemoveModel"@.len() == 11 && "RemoveModel"@[0] == 'R');
    assert("ClearModels"@.len() == 11 && "ClearModels"@[0] == 'C');
    assert("PreviewFrame"@.len() == 12 && "PreviewFrame"@[0] == 'P');
    assert("PreviewDetectFrame"@.len() == 18 && "PreviewDetectFrame"@[0] == 'P');
    assert("ListDevices"@.len() == 11 && "ListDevices"@[0] == 'L');
    assert("ReleaseCamera"@.len() == 13 && "ReleaseCamera"@[0] == 'R');
    assert("Ping"@.len() == 4 && "Ping"@[0] == 'P');
    assert("Shutdown"@.len() == 8 && "Shutdown"@[0] == 'S');
}

/// Each request is carried by the method of its name, with whom it is about first
/// and what it says of them next.
pub proof fn law_a_call_says_what_was_requested(
    user: Seq<char>,
    label: Seq<char>,
    model_id: u32,
)
    ensures
        ({
            let request = DaemonRequest::Authenticate { user };
            method_of(request) == "Authenticate"@ && arguments_of(request) == Arguments::Text(user)
        }),
        ({
            let request = DaemonRequest::Enroll { user, label };
            method_of(request) == "Enroll"@ && arguments_of(request) == Arguments::TwoTexts(
                user,
                label,
            )
        }),
        ({
            let request = DaemonRequest::ListModels { user };
            method_of(request) == "ListModels"@ && arguments_of(request) == Arguments::Text(user)
        }),
        ({
            let request = DaemonRequest::RemoveModel { user, model_id };
            method_of(request) == "RemoveModel"@ && arguments_of(request)
                == Arguments::TextAndNumber(user, model_id)
        }),
        ({
            let request = DaemonRequest::ClearModels { user };
            method_of(request) == "ClearModels"@ && arguments_of(request) == Arguments::Text(user)
        }),
        ({
            let request = DaemonRequest::PreviewDetectFrame { user };
            method_of(request) == "PreviewDetectFrame"@ && arguments_of(request)
                == Arguments::Text(user)
        }),
        method_of(DaemonRequest::<Seq<char>>::PreviewFrame) == "PreviewFrame"@,
        method_of(DaemonRequest::<Seq<char>>::ListDevices) == "ListDevices"@,
        method_of(DaemonRequest::<Seq<char>>::ReleaseCamera) == "ReleaseCamera"@,
        method_of(DaemonRequest::<Seq<char>>::Ping) == "Ping"@,
        method_of(DaemonRequest::<Seq<char>>::Shutdown) == "Shutdown"@,
        forall|request: DaemonRequest<Seq<char>>|
            request is PreviewFrame || request is ListDevices || request is ReleaseCamera
                || request is Ping || request is Shutdown ==> #[trigger] arguments_of(request)
                == Arguments::<Seq<char>>::Nothing,
{
}

/// A match reaches the commands as one, with its model and its label; an unmatched
/// verdict does too, unless its number stands for an error, whose message is then
/// the label, or for suppression.
pub proof fn law_a_verdict_is_handed_on(result: AuthResult<Seq<char>>)
    ensures
        verdict(result) == (ResponseView::Error { message: result.label }) <==> !result.matched
            && result.model_id == -2,
        verdict(result) is Suppressed <==> !result.matched && result.model_id == -3,
        result.matched || (result.model_id != -2 && result.model_id != -3) ==> (verdict(
            result,
        ) matches ResponseView::AuthResult(m) && {
            &&& m.matched == result.matched
            &&& result.model_id >= 0 ==> m.model_id == Some(result.model_id as u32)
            &&& result.model_id < 0 ==> m.model_id is None
            &&& result.label.len() > 0 ==> m.label == Some(result.label)
            &&& result.label.len() == 0 ==> m.label is None
            &&& m.failure_reason is None
        }),
{
}

/// A model off the bus is the one that was sent, and fits any camera exactly if it
/// was sent without one.
pub proof fn law_a_received_model_is_the_one_sent(m: ModelInfo<Seq<char>>)
    ensures
        received_model(m).id == m.id,
        received_model(m).user == m.user,
        received_model(m).label == m.label,
        received_model(m).created_at == m.created_at,
        received_model(m).embedder_model == m.embedder_model,
        received_model(m).device_id is None <==> m.device_id.len() == 0,
        received_model(m).device_id matches Some(device) ==> device == m.device_id,
{
}

/// A listing off the bus holds each model that was sent, in order.
pub proof fn law_listings_are_received_whole(
    user: Seq<char>,
    models: Seq<ModelInfo<Seq<char>>>,
    i: int,
)
    requires
        0 <= i < models.len(),
    ensures
        response_to(DaemonRequest::ListModels { user }, ReplyView::Models(models)) matches Some(
            ResponseView::Models(received),
        ) && received.len() == models.len() && received[i].id == models[i].id && received[i].user
            == models[i].user && received[i].label == models[i].label,
{
}

/// What a reply holds is what the command gets, and a removal that returned is a
/// removal.
pub proof fn law_replies_are_taken_at_their_word(
    user: Seq<char>,
    label: Seq<char>,
    id: u32,
    count: u32,
    data: Seq<u8>,
    recognized: Seq<bool>,
    devices: Seq<BusDevice<Seq<char>>>,
    result: AuthResult<Seq<char>>,
)
    ensures
        response_to(DaemonRequest::Authenticate { user }, ReplyView::Verdict(result)) == Some(
            verdict(result),
        ),
        response_to(DaemonRequest::Enroll { user, label }, ReplyView::Enrolled(id, count)) == Some(
            ResponseView::Enrolled { model_id: id, embedding_count: count },
        ),
        response_to(DaemonRequest::RemoveModel { user, model_id: id }, ReplyView::Nothing) == Some(
            ResponseView::Removed,
        ),
        response_to(DaemonRequest::ClearModels { user }, ReplyView::Nothing) == Some(
            ResponseView::Removed,
        ),
        response_to(DaemonRequest::<Seq<char>>::PreviewFrame, ReplyView::Frame(data)) == Some(
            ResponseView::Frame { jpeg_data: data },
        ),
        response_to(
            DaemonRequest::PreviewDetectFrame { user },
            ReplyView::DetectFrame(data, recognized),
        ) == Some(ResponseView::DetectFrame { jpeg_data: data, recognized }),
        response_to(DaemonRequest::<Seq<char>>::ListDevices, ReplyView::Devices(devices)) == Some(
            ResponseView::Devices(devices),
        ),
        response_to(DaemonRequest::<Seq<char>>::ReleaseCamera, ReplyView::Nothing) == Some(
            ResponseView::Done,
        ),
        response_to(DaemonRequest::<Seq<char>>::Ping, ReplyView::Text(label)) == Some(
            ResponseView::Done,
        ),
        response_to(DaemonRequest::<Seq<char>>::Shutdown, ReplyView::Nothing) == Some(
            ResponseView::Done,
        ),
{
}

/// A chain is a denial exactly if the bus denied access somewhere in it, or some
/// peer answered with the error of that name.
pub proof fn law_a_denial_is_anywhere_in_the_chain(chain: Seq<Cause<Seq<char>>>, i: int)
    requires
        0 <= i < chain.len(),
    ensures
        chain[i] is AccessDenied ==> denied(chain),
        (chain[i] matches Cause::MethodError { name, .. } && name
            == "org.freedesktop.DBus.Error.AccessDenied"@) ==> denied(chain),
        (forall|k: int|
            0 <= k < chain.len() ==> {
                ||| #[trigger] chain[k] is Context
                ||| chain[k] is Other
                ||| chain[k] matches Cause::MethodError { name, .. } && name
                    != "org.freedesktop.DBus.Error.AccessDenied"@
            }) ==> !denied(chain),
{
    if denies(chain[i]) {
        assert(denied(chain));
    }
}

/// A call that failed is reported under a sentence that names its method, above all
/// the causes; and the way into the group stands above that exactly after a denial.
pub proof fn law_a_failed_call_names_its_method(
    request: DaemonRequest<Seq<char>>,
    causes: Vec<Cause>,
)
    ensures
        outcome_of(request, Called::Failed(causes)) matches Err(chain) && ({
            let below = chain_view(causes@);
            let sentence = "D-Bus "@ + method_of(request) + " call failed"@;
            &&& !denied(below) ==> chain == seq![Cause::Context(sentence)] + below
            &&& denied(below) ==> chain == seq![
                Cause::Context(GROUP_HINT@),
                Cause::Context(sentence),
            ] + below
        }),
{
    let below = chain_view(causes@);
    let sentence = "D-Bus "@ + method_of(request) + " call failed"@;
    let whole = seq![Cause::Context(sentence)] + below;
    if denied(below) {
        let i = choose|i: int| 0 <= i < below.len() && denies(#[trigger] below[i]);
        assert(whole[i + 1] == below[i]);
        assert(denied(whole));
        assert(hinted(whole) =~= seq![Cause::Context(GROUP_HINT@), Cause::Context(sentence)]
            + below);
    } else {
        assert(!denied(whole)) by {
            if denied(whole) {
                let i = choose|i: int| 0 <= i < whole.len() && denies(#[trigger] whole[i]);
                assert(i > 0);
                assert(whole[i] == below[i - 1]);
            }
        }
    }
}

/// Only root proceeds at once; only someone at a terminal is made an offer; anyone
/// else is refused, and told the command to run.
pub proof fn law_only_root_proceeds(hint: Seq<char>, is_root: bool, stdin_is_tty: bool)
    ensures
        root_step(hint, is_root, stdin_is_tty) is Proceed <==> is_root,
        root_step(hint, is_root, stdin_is_tty) is Offer <==> !is_root && stdin_is_tty,
        root_step(hint, is_root, stdin_is_tty) is Escalate ==> false,
        root_step(hint, is_root, stdin_is_tty) matches RootStep::Refuse { message } ==> message
            == "Root required.\n  Run: "@ + hint,
{
}

/// An offer is taken up unless it is declined in so many words; a question is
/// confirmed only in so many words; and the space around an answer counts for
/// nothing. So no answer both declines and confirms, and an empty one does neither.
pub proof fn law_answers_are_plain_words(hint: Seq<char>, input: Seq<char>, other: Seq<char>)
    ensures
        after_answer(hint, input) is Refuse <==> crate::text::lowercase(crate::text::trim(input))
            == seq!['n'] || crate::text::lowercase(crate::text::trim(input)) == seq!['n', 'o'],
        after_answer(hint, input) is Escalate <==> !(after_answer(hint, input) is Refuse),
        after_answer(hint, input) matches RootStep::Refuse { message } ==> message
            == "Root required.\n  Run: "@ + hint,
        confirmed(input) <==> crate::text::lowercase(crate::text::trim(input)) == seq!['y']
            || crate::text::lowercase(crate::text::trim(input)) == seq!['y', 'e', 's'],
        confirmed(input) ==> after_answer(hint, input) is Escalate,
        crate::text::trim(input) == crate::text::trim(other) ==> confirmed(input) == confirmed(
            other,
        ) && after_answer(hint, input) == after_answer(hint, other),
{
    reveal_strlit("n");
    reveal_strlit("no");
    reveal_strlit("y");
    reveal_strlit("yes");
    assert("n"@ =~= seq!['n']);
    assert("no"@ =~= seq!['n', 'o']);
    assert("y"@ =~= seq!['y']);
    assert("yes"@ =~= seq!['y', 'e', 's']);
    assert(seq!['n'][0] == 'n' && seq!['n', 'o'][0] == 'n');
    assert(seq!['y'][0] == 'y' && seq!['y', 'e', 's'][0] == 'y');
}

/// The daemon does the work exactly if the configuration has it and its bus name is
/// known to be owned.
pub proof fn law_the_daemon_works_only_where_it_runs(oneshot: bool, owner: Option<bool>)
    ensures
        !works_direct(oneshot, owner) <==> !oneshot && owner == Some(true),
{
}

/// The user is the one named by the flag, and otherwise the first that is known of
/// the one behind `sudo`, the one behind `doas`, the one of the environment and the
/// one of the account.
pub proof fn law_the_flag_outranks_the_environment(
    flag: Option<Seq<char>>,
    names: CallerNames,
)
    ensures
        flag matches Some(name) ==> target_user(flag, names) == name,
        flag is None ==> {
            &&& names.sudo_user matches Some(name) ==> target_user(flag, names) == name@
            &&& names.sudo_user is None ==> {
                &&& names.doas_user matches Some(name) ==> target_user(flag, names) == name@
                &&& names.doas_user is None ==> {
                    &&& names.user matches Some(name) ==> target_user(flag, names) == name@
                    &&& names.user is None && names.account is Some ==> target_user(flag, names)
                        == names.account->0@
                }
            }
        },
{
}

/// The hint comes exactly with a denial, hides none of the causes, and is added
/// once: a hinted chain is still denied, and an unhinted one is not.
pub proof fn law_hint_comes_with_denial(chain: Seq<Cause<Seq<char>>>)
    ensures
        denied(chain) <==> hinted(chain) != chain,
        denied(hinted(chain)) <==> denied(chain),
        hinted(chain).skip(hinted(chain).len() - chain.len()) == chain,
{
    let h = hinted(chain);
    assert(h.skip(h.len() - chain.len()) =~= chain);
    if denied(chain) {
        let i = choose|i: int| 0 <= i < chain.len() && denies(#[trigger] chain[i]);
        assert(h[i + 1] == chain[i]);
        assert(denies(h[i + 1]));
        assert(h.len() == chain.len() + 1);
    }
}

} // verus!
