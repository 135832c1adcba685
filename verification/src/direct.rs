//! Work without the daemon: the camera, the key and the store are used in this
//! process, and this is what decides how.
//!
//! A failure is a chain of sentences, the outermost first.

use crate::auth::{warmup_frames, AuditSource};
use crate::device::{is_ir_camera_resolved, DeviceInfo};
use crate::ipc_client::{DaemonResponse, MatchResult, ResponseView};
use crate::quirks::{read_usb_ids, DeviceFingerprint, Quirk, QuirksDb};
use crate::text::decimal_of;
use vstd::prelude::*;
use vstd::string::*;

verus! {

// ---------------------------------------------------------------------------
// The camera
// ---------------------------------------------------------------------------

/// What the configuration says of the camera.
#[derive(Debug)]
pub struct DeviceConfig {
    pub path: Option<String>,
    pub warmup_frames: u32,
}

/// The camera to open, and what is known of it.
#[derive(Debug)]
pub struct ResolvedCameraDevice<'a> {
    pub device: DeviceConfig,
    pub device_quirk: Option<&'a Quirk>,
    pub device_is_ir: bool,
    pub device_fingerprint: DeviceFingerprint,
}

/// The path to open, and how many frames are thrown away where no quirk says.
pub open spec fn camera_config(device: DeviceInfo, configured_warmup: u32) -> (Seq<char>, u32) {
    (device.path@, configured_warmup)
}

/// The camera to open: the configuration with the device's path in it, the quirk
/// that speaks for the device, and whether it is infrared among the host's other
/// nodes.
pub fn build_resolved_camera_device<'a>(
    configured_warmup: u32,
    device_info: &DeviceInfo,
    device_fingerprint: DeviceFingerprint,
    quirks: &'a QuirksDb,
    listed: &[DeviceInfo],
    listed_ids: &[Option<(String, String)>],
) -> (r: ResolvedCameraDevice<'a>)
    requires
        listed.len() == listed_ids.len(),
        listed.len() < usize::MAX,
    ensures
        crate::text::opt_text(r.device.path) == Some(
            camera_config(*device_info, configured_warmup).0,
        ),
        r.device.warmup_frames == camera_config(*device_info, configured_warmup).1,
        match crate::quirks::best_match(
            quirks@,
            device_info.name@,
            crate::quirks::usb_ids(device_fingerprint),
        ) {
            Some((i, _)) => r.device_quirk == Some(&quirks@[i]),
            None => r.device_quirk is None,
        },
        r.device_is_ir == (crate::device::resolved_among(
            *device_info,
            crate::quirks::usb_ids(device_fingerprint),
            Some(quirks@),
            crate::device::nodes_of(listed@, listed_ids@),
        ) != crate::device::IrSource::NotIr),
        r.device_fingerprint == device_fingerprint,
{
    let ids = read_usb_ids(&device_fingerprint);
    let device_quirk = quirks.find_match(device_info, &device_fingerprint);
    let device_is_ir = is_ir_camera_resolved(
        device_info,
        ids.as_ref(),
        Some(quirks),
        listed,
        listed_ids,
    );
    ResolvedCameraDevice {
        device: DeviceConfig {
            path: Some(device_info.path.clone()),
            warmup_frames: configured_warmup,
        },
        device_quirk,
        device_is_ir,
        device_fingerprint,
    }
}

impl<'a> ResolvedCameraDevice<'a> {
    /// The number of frames to throw away after opening: the quirk's, else the
    /// configuration's.
    pub fn warmup(&self) -> (r: u32)
        ensures
            r == crate::auth::warmup(
                match self.device_quirk {
                    Some(q) => q.warmup_frames,
                    None => None,
                },
                self.device.warmup_frames,
            ),
    {
        let quirk: Option<u32> = match self.device_quirk {
            Some(q) => q.warmup_frames,
            None => None,
        };
        warmup_frames(quirk, self.device.warmup_frames)
    }
}

/// The chain under which a camera that could not be resolved is reported.
pub open spec fn unresolved_camera(path: Option<Seq<char>>, cause: Seq<char>) -> Seq<Seq<char>> {
    match path {
        Some(p) => seq!["failed to query configured camera "@ + p, cause],
        None => seq!["no camera device specified and auto-detection failed"@, cause],
    }
}

fn under(context: String, cause: String) -> (r: Vec<String>)
    ensures
        crate::text::texts(r@) == seq![context@, cause@],
{
    let mut chain: Vec<String> = Vec::new();
    chain.push(context);
    chain.push(cause);
    assert(crate::text::texts(chain@) =~= seq![context@, cause@]);
    chain
}

/// The chain under which a camera that could not be resolved is reported, given
/// the path that the configuration names.
pub fn resolve_failed(path: &Option<String>, cause: String) -> (r: Vec<String>)
    ensures
        crate::text::texts(r@) == unresolved_camera(crate::text::opt_text(*path), cause@),
{
    match path {
        Some(p) => {
            let mut context = String::from_str("failed to query configured camera ");
            context.append(p.as_str());
            under(context, cause)
        },
        None => under(
            String::from_str("no camera device specified and auto-detection failed"),
            cause,
        ),
    }
}

/// A piece of outside work that direct mode does.
#[derive(Debug, Clone, Copy, PartialEq, Eq, Structural)]
pub enum Work {
    OpenStore,
    ResolveCamera,
    OpenCamera,
    LoadEngine,
    GenerateKey,
    LoadKey,
    ConnectTpm,
    ReadEmbeddings,
    ReadRawEmbeddings,
    ListModels,
    EnumerateDevices,
}

impl Work {
    /// The sentence under which its failure is reported.
    pub open spec fn context(self) -> Seq<char> {
        match self {
            Work::OpenStore => "failed to open database"@,
            Work::ResolveCamera => "failed to resolve camera device"@,
            Work::OpenCamera => "failed to open camera"@,
            Work::LoadEngine => "failed to load face engine"@,
            Work::GenerateKey => "failed to auto-generate encryption key"@,
            Work::LoadKey => "failed to initialize software encryption sealer"@,
            Work::ConnectTpm => "TPM initialization failed"@,
            Work::ReadEmbeddings => "storage error loading embeddings"@,
            Work::ReadRawEmbeddings => "storage error loading raw embeddings"@,
            Work::ListModels => "storage error listing face models"@,
            Work::EnumerateDevices => "failed to enumerate devices"@,
        }
    }

    /// The sentence under which its failure is reported.
    pub fn failure(self) -> (r: &'static str)
        ensures
            r@ == self.context(),
    {
        match self {
            Work::OpenStore => "failed to open database",
            Work::ResolveCamera => "failed to resolve camera device",
            Work::OpenCamera => "failed to open camera",
            Work::LoadEngine => "failed to load face engine",
            Work::GenerateKey => "failed to auto-generate encryption key",
            Work::LoadKey => "failed to initialize software encryption sealer",
            Work::ConnectTpm => "TPM initialization failed",
            Work::ReadEmbeddings => "storage error loading embeddings",
            Work::ReadRawEmbeddings => "storage error loading raw embeddings",
            Work::ListModels => "storage error listing face models",
            Work::EnumerateDevices => "failed to enumerate devices",
        }
    }
}

// ---------------------------------------------------------------------------
// The recognition test and the enrollment
// ---------------------------------------------------------------------------

/// The next piece of work of a recognition test.
#[derive(Debug, Clone, Copy, PartialEq, Eq, Structural)]
pub enum TestWork {
    OpenStore,
    /// Find out what the camera is, without opening it.
    ClassifyCamera,
    /// Ask the pre-flight rules. They may end the test.
    PreCheck,
    ResolveCamera,
    OpenCamera,
    LoadEngine,
    LoadEmbeddings,
    ListModels,
    /// Compare, then wipe the templates.
    Compare,
}

impl TestWork {
    /// The source that the audit entries of the work are stamped with.
    pub open spec fn audited_as(self) -> Option<AuditSource> {
        if self == TestWork::PreCheck || self == TestWork::Compare {
            Some(AuditSource::Test)
        } else {
            None
        }
    }

    /// The source that the audit entries of the work are stamped with; none for
    /// work that is not audited.
    pub fn audit_source(self) -> (r: Option<AuditSource>)
        ensures
            r == self.audited_as(),
    {
        match self {
            TestWork::PreCheck => Some(AuditSource::Test),
            TestWork::Compare => Some(AuditSource::Test),
            _ => None,
        }
    }
}

/// The chain under which a failure of the work is reported.
pub open spec fn test_chain(work: TestWork, cause: Seq<Seq<char>>) -> Seq<Seq<char>> {
    match work {
        TestWork::OpenStore => seq![Work::OpenStore.context()] + cause,
        TestWork::ClassifyCamera => seq![Work::ResolveCamera.context()] + cause,
        TestWork::OpenCamera => seq![Work::OpenCamera.context()] + cause,
        TestWork::LoadEngine => seq![Work::LoadEngine.context()] + cause,
        TestWork::ListModels => seq![Work::ListModels.context()] + cause,
        _ => cause,
    }
}

/// The work after this one; none after the comparison.
pub open spec fn test_after(work: TestWork) -> Option<TestWork> {
    match work {
        TestWork::OpenStore => Some(TestWork::ClassifyCamera),
        TestWork::ClassifyCamera => Some(TestWork::PreCheck),
        TestWork::PreCheck => Some(TestWork::ResolveCamera),
        TestWork::ResolveCamera => Some(TestWork::OpenCamera),
        TestWork::OpenCamera => Some(TestWork::LoadEngine),
        TestWork::LoadEngine => Some(TestWork::LoadEmbeddings),
        TestWork::LoadEmbeddings => Some(TestWork::ListModels),
        TestWork::ListModels => Some(TestWork::Compare),
        TestWork::Compare => None,
    }
}

/// How a recognition test goes on.
#[derive(Debug)]
pub enum TestProgress {
    Work(TestWork),
    /// The verdict to report.
    Verdict(MatchResult),
    /// The chain of sentences to fail with.
    Fail(Vec<String>),
}

/// How a recognition test goes on, with sequences in place of strings.
pub enum TestProgressView {
    Work(TestWork),
    Verdict(MatchResult<Seq<char>>),
    Fail(Seq<Seq<char>>),
}

impl View for TestProgress {
    type V = TestProgressView;

    open spec fn view(&self) -> TestProgressView {
        match *self {
            TestProgress::Work(work) => TestProgressView::Work(work),
            TestProgress::Verdict(m) => TestProgressView::Verdict(m@),
            TestProgress::Fail(chain) => TestProgressView::Fail(crate::text::texts(chain@)),
        }
    }
}

/// What a piece of work of a test came to.
#[derive(Debug)]
pub enum Worked {
    Done,
    Failed(Vec<String>),
    /// What the rules or the comparison answered.
    Answered(DaemonResponse),
}

/// What a verdict, or the lack of one, leads to.
pub open spec fn verdict_leads(verdict: Result<MatchResult<Seq<char>>, Seq<char>>) -> TestProgressView {
    match verdict {
        Ok(m) => TestProgressView::Verdict(m),
        Err(message) => TestProgressView::Fail(seq![message]),
    }
}

/// What follows a piece of work of a test. An answer of the rules ends it before
/// the camera is opened.
pub open spec fn test_leads(work: TestWork, worked: Worked) -> TestProgressView {
    match worked {
        Worked::Failed(chain) => TestProgressView::Fail(
            test_chain(work, crate::text::texts(chain@)),
        ),
        Worked::Answered(answer) => if work == TestWork::PreCheck {
            verdict_leads(pre_check_verdict(answer@))
        } else {
            verdict_leads(test_verdict(answer@))
        },
        Worked::Done => match test_after(work) {
            Some(next) => TestProgressView::Work(next),
            None => TestProgressView::Fail(seq!["unexpected auth response"@]),
        },
    }
}

fn under_context(context: &str, chain: Vec<String>) -> (r: Vec<String>)
    ensures
        crate::text::texts(r@) == seq![context@] + crate::text::texts(chain@),
{
    let ghost before = crate::text::texts(chain@);
    let mut chain = chain;
    chain.insert(0, String::from_str(context));
    assert(crate::text::texts(chain@) =~= seq![context@] + before);
    chain
}

fn verdict_progress(verdict: Result<MatchResult, String>) -> (r: TestProgress)
    ensures
        r@ == verdict_leads(verdict_view(verdict)),
{
    match verdict {
        Ok(m) => TestProgress::Verdict(m),
        Err(message) => {
            let mut chain: Vec<String> = Vec::new();
            chain.push(message);
            assert(crate::text::texts(chain@) =~= seq![message@]);
            TestProgress::Fail(chain)
        },
    }
}

/// What follows a piece of work of a recognition test. No failure of a test
/// counts against the user's rate limit.
pub fn authenticate(work: TestWork, worked: Worked) -> (r: TestProgress)
    ensures
        r@ == test_leads(work, worked),
{
    match worked {
        Worked::Failed(chain) => TestProgress::Fail(
            match work {
                TestWork::OpenStore => under_context(Work::OpenStore.failure(), chain),
                TestWork::ClassifyCamera => under_context(Work::ResolveCamera.failure(), chain),
                TestWork::OpenCamera => under_context(Work::OpenCamera.failure(), chain),
                TestWork::LoadEngine => under_context(Work::LoadEngine.failure(), chain),
                TestWork::ListModels => under_context(Work::ListModels.failure(), chain),
                _ => chain,
            },
        ),
        Worked::Answered(answer) => if work == TestWork::PreCheck {
            verdict_progress(pre_checked(answer))
        } else {
            verdict_progress(authenticated(answer))
        },
        Worked::Done => {
            let next = match work {
                TestWork::OpenStore => TestWork::ClassifyCamera,
                TestWork::ClassifyCamera => TestWork::PreCheck,
                TestWork::PreCheck => TestWork::ResolveCamera,
                TestWork::ResolveCamera => TestWork::OpenCamera,
                TestWork::OpenCamera => TestWork::LoadEngine,
                TestWork::LoadEngine => TestWork::LoadEmbeddings,
                TestWork::LoadEmbeddings => TestWork::ListModels,
                TestWork::ListModels => TestWork::Compare,
                TestWork::Compare => {
                    return verdict_progress(
                        Err(String::from_str("unexpected auth response")),
                    );
                },
            };
            TestProgress::Work(next)
        },
    }
}

// ---------------------------------------------------------------------------
// Responses
// ---------------------------------------------------------------------------

/// A verdict of no match that names no model.
pub open spec fn unmatched() -> MatchResult<Seq<char>> {
    MatchResult { matched: false, model_id: None, label: None, failure_reason: None }
}

/// What the pre-flight rules' answer to a test means: the verdict to report, or
/// why there is none.
pub open spec fn pre_check_verdict(answer: ResponseView) -> Result<
    MatchResult<Seq<char>>,
    Seq<char>,
> {
    match answer {
        ResponseView::AuthResult(result) => Ok(result),
        ResponseView::Suppressed => Ok(unmatched()),
        ResponseView::Error { message } => Err(message),
        _ => Err("unexpected pre-check response"@),
    }
}

/// What the comparison's answer to a test means.
pub open spec fn test_verdict(answer: ResponseView) -> Result<MatchResult<Seq<char>>, Seq<char>> {
    match answer {
        ResponseView::AuthResult(result) => Ok(result),
        ResponseView::Error { message } => Err(message),
        _ => Err("unexpected auth response"@),
    }
}

/// What the answer to an enrollment means: the model's number and how many
/// embeddings it holds.
pub open spec fn enrolled(answer: ResponseView) -> Result<(u32, u32), Seq<char>> {
    match answer {
        ResponseView::Enrolled { model_id, embedding_count } => Ok((model_id, embedding_count)),
        ResponseView::Error { message } => Err(message),
        _ => Err("unexpected enroll response"@),
    }
}

/// A verdict with sequences in place of strings.
pub open spec fn verdict_view(r: Result<MatchResult, String>) -> Result<
    MatchResult<Seq<char>>,
    Seq<char>,
> {
    match r {
        Ok(m) => Ok(m@),
        Err(message) => Err(message@),
    }
}

/// What the pre-flight rules' answer to a test means. A suppressed attempt is no
/// match.
pub fn pre_checked(answer: DaemonResponse) -> (r: Result<MatchResult, String>)
    ensures
        verdict_view(r) == pre_check_verdict(answer@),
{
    match answer {
        DaemonResponse::AuthResult(result) => Ok(result),
        DaemonResponse::Suppressed => Ok(
            MatchResult { matched: false, model_id: None, label: None, failure_reason: None },
        ),
        DaemonResponse::Error { message } => Err(message),
        _ => Err(String::from_str("unexpected pre-check response")),
    }
}

/// What the comparison's answer to a test means.
pub fn authenticated(answer: DaemonResponse) -> (r: Result<MatchResult, String>)
    ensures
        verdict_view(r) == test_verdict(answer@),
{
    match answer {
        DaemonResponse::AuthResult(result) => Ok(result),
        DaemonResponse::Error { message } => Err(message),
        _ => Err(String::from_str("unexpected auth response")),
    }
}

/// What the answer to an enrollment means.
pub fn enroll_answered(answer: DaemonResponse) -> (r: Result<(u32, u32), String>)
    ensures
        match r {
            Ok(pair) => enrolled(answer@) == Ok::<(u32, u32), Seq<char>>(pair),
            Err(message) => enrolled(answer@) == Err::<(u32, u32), Seq<char>>(message@),
        },
{
    match answer {
        DaemonResponse::Enrolled { model_id, embedding_count } => Ok((model_id, embedding_count)),
        DaemonResponse::Error { message } => Err(message),
        _ => Err(String::from_str("unexpected enroll response")),
    }
}

/// The next piece of work of an enrollment.
#[derive(Debug, Clone, Copy, PartialEq, Eq, Structural)]
pub enum EnrollWork {
    /// Ask the configuration whether a template may be stored under its
    /// encryption.
    CheckAllowed,
    OpenStore,
    ResolveCamera,
    OpenCamera,
    LoadEngine,
    InitSealer,
    /// Capture and store.
    Enroll,
}

/// How an enrollment goes on.
#[derive(Debug)]
pub enum EnrollProgress {
    Work(EnrollWork),
    /// The model's number, and how many embeddings it holds.
    Enrolled(u32, u32),
    /// The chain of sentences to fail with.
    Fail(Vec<String>),
}

/// How an enrollment goes on, with sequences in place of strings.
pub enum EnrollProgressView {
    Work(EnrollWork),
    Enrolled(u32, u32),
    Fail(Seq<Seq<char>>),
}

impl View for EnrollProgress {
    type V = EnrollProgressView;

    open spec fn view(&self) -> EnrollProgressView {
        match *self {
            EnrollProgress::Work(work) => EnrollProgressView::Work(work),
            EnrollProgress::Enrolled(id, count) => EnrollProgressView::Enrolled(id, count),
            EnrollProgress::Fail(chain) => EnrollProgressView::Fail(crate::text::texts(chain@)),
        }
    }
}

/// The work after this one; none after the capture.
pub open spec fn enroll_after(work: EnrollWork) -> Option<EnrollWork> {
    match work {
        EnrollWork::CheckAllowed => Some(EnrollWork::OpenStore),
        EnrollWork::OpenStore => Some(EnrollWork::ResolveCamera),
        EnrollWork::ResolveCamera => Some(EnrollWork::OpenCamera),
        EnrollWork::OpenCamera => Some(EnrollWork::LoadEngine),
        EnrollWork::LoadEngine => Some(EnrollWork::InitSealer),
        EnrollWork::InitSealer => Some(EnrollWork::Enroll),
        EnrollWork::Enroll => None,
    }
}

/// The chain under which a failure of the work is reported.
pub open spec fn enroll_chain(work: EnrollWork, cause: Seq<Seq<char>>) -> Seq<Seq<char>> {
    match work {
        EnrollWork::OpenStore => seq![Work::OpenStore.context()] + cause,
        EnrollWork::OpenCamera => seq![Work::OpenCamera.context()] + cause,
        EnrollWork::LoadEngine => seq![Work::LoadEngine.context()] + cause,
        _ => cause,
    }
}

/// What follows a piece of work of an enrollment.
pub open spec fn enroll_leads(work: EnrollWork, worked: Worked) -> EnrollProgressView {
    match worked {
        Worked::Failed(chain) => EnrollProgressView::Fail(
            enroll_chain(work, crate::text::texts(chain@)),
        ),
        Worked::Answered(answer) => match enrolled(answer@) {
            Ok((id, count)) => EnrollProgressView::Enrolled(id, count),
            Err(message) => EnrollProgressView::Fail(seq![message]),
        },
        Worked::Done => match enroll_after(work) {
            Some(next) => EnrollProgressView::Work(next),
            None => EnrollProgressView::Fail(seq!["unexpected enroll response"@]),
        },
    }
}

fn failed_enroll(message: String) -> (r: EnrollProgress)
    ensures
        r@ == EnrollProgressView::Fail(seq![message@]),
{
    let mut chain: Vec<String> = Vec::new();
    chain.push(message);
    assert(crate::text::texts(chain@) =~= seq![message@]);
    EnrollProgress::Fail(chain)
}

/// What follows a piece of work of an enrollment without the daemon. A template
/// that may not be stored is refused before anything is opened.
pub fn enroll(work: EnrollWork, worked: Worked) -> (r: EnrollProgress)
    ensures
        r@ == enroll_leads(work, worked),
{
    match worked {
        Worked::Failed(chain) => EnrollProgress::Fail(
            match work {
                EnrollWork::OpenStore => under_context(Work::OpenStore.failure(), chain),
                EnrollWork::OpenCamera => under_context(Work::OpenCamera.failure(), chain),
                EnrollWork::LoadEngine => under_context(Work::LoadEngine.failure(), chain),
                _ => chain,
            },
        ),
        Worked::Answered(answer) => match enroll_answered(answer) {
            Ok((id, count)) => EnrollProgress::Enrolled(id, count),
            Err(message) => failed_enroll(message),
        },
        Worked::Done => match work {
            EnrollWork::CheckAllowed => EnrollProgress::Work(EnrollWork::OpenStore),
            EnrollWork::OpenStore => EnrollProgress::Work(EnrollWork::ResolveCamera),
            EnrollWork::ResolveCamera => EnrollProgress::Work(EnrollWork::OpenCamera),
            EnrollWork::OpenCamera => EnrollProgress::Work(EnrollWork::LoadEngine),
            EnrollWork::LoadEngine => EnrollProgress::Work(EnrollWork::InitSealer),
            EnrollWork::InitSealer => EnrollProgress::Work(EnrollWork::Enroll),
            EnrollWork::Enroll => failed_enroll(String::from_str("unexpected enroll response")),
        },
    }
}

// ---------------------------------------------------------------------------
// Templates
// ---------------------------------------------------------------------------

/// How new templates are encrypted.
#[derive(Debug, Clone, Copy, PartialEq, Eq, Structural)]
pub enum EncryptionMethod {
    Keyfile,
    Tpm,
    Plaintext,
}

/// How the key for the software encryption is come by.
#[derive(Debug, Clone, Copy, PartialEq, Eq, Structural)]
pub enum SealerPlan {
    /// There is no software encryption.
    NoSealer,
    /// Write a new key to the key file, then load it.
    GenerateThenLoad,
    /// Load the key file.
    Load,
    /// Have the TPM unseal the key.
    UnsealKey,
    /// The TPM is asked for and this build cannot use one.
    NoTpmSupport,
}

/// What a build that cannot use a TPM says where one is asked for.
pub const NO_TPM_SUPPORT: &'static str =
    "encryption method is 'tpm' but TPM support is not compiled in (rebuild with --features tpm)";

/// How the key is come by.
pub open spec fn sealer_plan(
    method: EncryptionMethod,
    key_file_exists: bool,
    tpm_support: bool,
) -> SealerPlan {
    match method {
        EncryptionMethod::Keyfile => if key_file_exists {
            SealerPlan::Load
        } else {
            SealerPlan::GenerateThenLoad
        },
        EncryptionMethod::Tpm => if tpm_support {
            SealerPlan::UnsealKey
        } else {
            SealerPlan::NoTpmSupport
        },
        EncryptionMethod::Plaintext => SealerPlan::NoSealer,
    }
}

/// How the key is come by. The key file is made on first use, so that the
/// default encrypts.
pub fn init_software_sealer(
    method: EncryptionMethod,
    key_file_exists: bool,
    tpm_support: bool,
) -> (r: SealerPlan)
    ensures
        r == sealer_plan(method, key_file_exists, tpm_support),
{
    match method {
        EncryptionMethod::Keyfile => if !key_file_exists {
            SealerPlan::GenerateThenLoad
        } else {
            SealerPlan::Load
        },
        EncryptionMethod::Tpm => if tpm_support {
            SealerPlan::UnsealKey
        } else {
            SealerPlan::NoTpmSupport
        },
        EncryptionMethod::Plaintext => SealerPlan::NoSealer,
    }
}

/// The sentence under which a key that the TPM would not unseal is reported.
pub fn unseal_key_failure(sealed_path: &str) -> (r: String)
    ensures
        r@ == "failed to unseal AES key from "@ + sealed_path@,
{
    let mut context = String::from_str("failed to unseal AES key from ");
    context.append(sealed_path);
    context
}

/// Whether the stored rows can be read as embeddings outright.
pub open spec fn rows_are_plain(has_software_sealer: bool, seal_database: bool) -> bool {
    !has_software_sealer && !seal_database
}

/// Whether the stored rows can be read as embeddings outright: nothing is
/// configured that could have written encrypted ones.
pub fn reads_plain_rows(has_software_sealer: bool, seal_database: bool) -> (r: bool)
    ensures
        r == rows_are_plain(has_software_sealer, seal_database),
{
    !has_software_sealer && !seal_database
}

/// The bytes of an embedding: 512 floats of four.
pub const EMBEDDING_BYTES: usize = 2048;

/// A stored row.
#[derive(Debug, Clone, Copy)]
pub struct Row {
    pub id: u32,
    pub length: usize,
    pub sealed: bool,
    /// Whether the bytes carry the mark of the software encryption.
    pub software_encrypted: bool,
}

/// How a stored row becomes an embedding.
#[derive(Debug, Clone, Copy, PartialEq, Eq, Structural)]
pub enum RowPlan {
    /// The software sealer decrypts it.
    Decrypt,
    /// The TPM unseals it.
    Unseal,
    /// It is the embedding.
    Raw,
}

/// How a row becomes an embedding, or why it cannot.
pub open spec fn row_plan(row: Row, has_key: bool) -> Result<RowPlan, Seq<char>> {
    if row.sealed && row.software_encrypted {
        if has_key {
            Ok(RowPlan::Decrypt)
        } else {
            Err(
                "embedding "@ + crate::text::decimal(row.id as nat)
                    + " is software-encrypted but no key is configured"@,
            )
        }
    } else if row.sealed {
        Ok(RowPlan::Unseal)
    } else if row.length == EMBEDDING_BYTES {
        Ok(RowPlan::Raw)
    } else {
        Err(
            "invalid raw embedding size for id "@ + crate::text::decimal(row.id as nat)
                + ": expected 2048 bytes, got "@ + crate::text::decimal(row.length as nat),
        )
    }
}

/// How a row becomes an embedding, or why it cannot.
pub fn plan_row(row: &Row, has_key: bool) -> (r: Result<RowPlan, String>)
    ensures
        match r {
            Ok(plan) => row_plan(*row, has_key) == Ok::<RowPlan, Seq<char>>(plan),
            Err(message) => row_plan(*row, has_key) == Err::<RowPlan, Seq<char>>(message@),
        },
{
    if row.sealed && row.software_encrypted {
        if has_key {
            return Ok(RowPlan::Decrypt);
        }
        let mut message = String::from_str("embedding ");
        message.append(decimal_of(row.id as u64).as_str());
        message.append(" is software-encrypted but no key is configured");
        return Err(message);
    }
    if row.sealed {
        return Ok(RowPlan::Unseal);
    }
    if row.length == EMBEDDING_BYTES {
        return Ok(RowPlan::Raw);
    }
    let mut message = String::from_str("invalid raw embedding size for id ");
    message.append(decimal_of(row.id as u64).as_str());
    message.append(": expected 2048 bytes, got ");
    message.append(decimal_of(row.length as u64).as_str());
    Err(message)
}

/// How many of the first rows have a plan.
pub open spec fn planned(rows: Seq<Row>, has_key: bool) -> nat
    decreases rows.len(),
{
    if rows.len() == 0 || row_plan(rows[0], has_key) is Err {
        0
    } else {
        1 + planned(rows.skip(1), has_key)
    }
}

/// The plans of the rows up to the first that has none, and why it has none.
/// Carried out in order, they fail where reading row by row would fail.
pub fn load_user_embeddings(rows: &Vec<Row>, has_key: bool) -> (r: (Vec<RowPlan>, Option<String>))
    ensures
        r.0.len() == planned(rows@, has_key),
        r.0.len() <= rows.len(),
        forall|i: int|
            0 <= i < r.0.len() ==> row_plan(rows[i], has_key) == Ok::<RowPlan, Seq<char>>(
                #[trigger] r.0[i],
            ),
        match r.1 {
            Some(message) => {
                &&& r.0.len() < rows.len()
                &&& row_plan(rows[r.0.len() as int], has_key) == Err::<RowPlan, Seq<char>>(
                    message@,
                )
            },
            None => r.0.len() == rows.len(),
        },
{
    let mut plans: Vec<RowPlan> = Vec::new();
    let mut i: usize = 0;
    assert(rows@.skip(0) =~= rows@);
    while i < rows.len()
        invariant
            i <= rows.len(),
            plans.len() == i,
            planned(rows@, has_key) == i + planned(rows@.skip(i as int), has_key),
            forall|j: int|
                0 <= j < i ==> row_plan(rows[j], has_key) == Ok::<RowPlan, Seq<char>>(
                    #[trigger] plans[j],
                ),
        decreases rows.len() - i,
    {
        assert(rows@.skip(i as int).skip(1) =~= rows@.skip(i as int + 1));
        match plan_row(&rows[i], has_key) {
            Ok(plan) => {
                plans.push(plan);
            },
            Err(message) => {
                return (plans, Some(message));
            },
        }
        i += 1;
    }
    (plans, None)
}

/// The sentence under which a row that would not open is reported. Reading a raw
/// row cannot fail.
pub open spec fn row_context(id: u32, plan: RowPlan) -> Option<Seq<char>> {
    match plan {
        RowPlan::Decrypt => Some(
            "software decryption failed for embedding "@ + crate::text::decimal(id as nat),
        ),
        RowPlan::Unseal => Some(
            "TPM unseal failed for embedding "@ + crate::text::decimal(id as nat),
        ),
        RowPlan::Raw => None,
    }
}

/// The sentence under which a row that would not open is reported.
pub fn row_failure(id: u32, plan: RowPlan) -> (r: Option<String>)
    ensures
        crate::text::opt_text(r) == row_context(id, plan),
{
    match plan {
        RowPlan::Decrypt => {
            let mut context = String::from_str("software decryption failed for embedding ");
            context.append(decimal_of(id as u64).as_str());
            Some(context)
        },
        RowPlan::Unseal => {
            let mut context = String::from_str("TPM unseal failed for embedding ");
            context.append(decimal_of(id as u64).as_str());
            Some(context)
        },
        RowPlan::Raw => None,
    }
}

// ---------------------------------------------------------------------------
// The course of loading the templates
// ---------------------------------------------------------------------------

/// The next piece of work of loading a user's templates.
#[derive(Debug, Clone, Copy, PartialEq, Eq, Structural)]
pub enum LoadWork {
    /// Write a new key to the key file.
    GenerateKey,
    /// Load the key file.
    LoadKey,
    /// Connect to the TPM that holds the key.
    ConnectForKey,
    /// Have it unseal the key.
    UnsealKey,
    /// Read the rows as embeddings outright.
    ReadEmbeddings,
    /// Read the rows as they are stored.
    ReadRawEmbeddings,
    /// Connect to the TPM, for the row at this place.
    ConnectTpm { row: usize },
    /// Open the row at this place.
    OpenRow { row: usize, plan: RowPlan },
}

/// What came of a piece of work.
#[derive(Debug)]
pub enum LoadWorked {
    Done,
    /// The rows that were read as they are stored.
    Rows(Vec<Row>),
    /// The chain of sentences that it failed with.
    Failed(Vec<String>),
}

/// How a load goes on.
#[derive(Debug)]
pub enum LoadProgress {
    Work(LoadWork),
    /// Every template is there.
    Loaded,
    /// The chain of sentences to fail with.
    Fail(Vec<String>),
}

/// What a load has come to so far.
#[derive(Debug)]
pub struct Loading {
    pub sealed_key_path: String,
    pub seal_database: bool,
    /// Whether there is a key for the software encryption.
    pub has_key: bool,
    pub rows: Vec<Row>,
    /// Whether the TPM is connected to for the rows.
    pub connected: bool,
}

/// What came of a piece of work, with sequences in place of vectors and strings.
pub enum LoadWorkedView {
    Done,
    Rows(Seq<Row>),
    Failed(Seq<Seq<char>>),
}

/// How a load goes on, with sequences in place of vectors and strings.
pub enum LoadProgressView {
    Work(LoadWork),
    Loaded,
    Fail(Seq<Seq<char>>),
}

/// What a load has come to, with sequences in place of vectors and strings.
pub struct LoadingView {
    pub sealed_key_path: Seq<char>,
    pub seal_database: bool,
    pub has_key: bool,
    pub rows: Seq<Row>,
    pub connected: bool,
}

impl View for LoadWorked {
    type V = LoadWorkedView;

    open spec fn view(&self) -> LoadWorkedView {
        match *self {
            LoadWorked::Done => LoadWorkedView::Done,
            LoadWorked::Rows(rows) => LoadWorkedView::Rows(rows@),
            LoadWorked::Failed(chain) => LoadWorkedView::Failed(crate::text::texts(chain@)),
        }
    }
}

impl View for LoadProgress {
    type V = LoadProgressView;

    open spec fn view(&self) -> LoadProgressView {
        match *self {
            LoadProgress::Work(work) => LoadProgressView::Work(work),
            LoadProgress::Loaded => LoadProgressView::Loaded,
            LoadProgress::Fail(chain) => LoadProgressView::Fail(crate::text::texts(chain@)),
        }
    }
}

impl View for Loading {
    type V = LoadingView;

    open spec fn view(&self) -> LoadingView {
        LoadingView {
            sealed_key_path: self.sealed_key_path@,
            seal_database: self.seal_database,
            has_key: self.has_key,
            rows: self.rows@,
            connected: self.connected,
        }
    }
}

/// The work that reads the rows, once the key is there or none is needed.
pub open spec fn read_work(loading: LoadingView) -> LoadWork {
    if rows_are_plain(loading.has_key, loading.seal_database) {
        LoadWork::ReadEmbeddings
    } else {
        LoadWork::ReadRawEmbeddings
    }
}

/// What is done about the row at a place. The TPM is connected to for the first
/// row that needs it.
pub open spec fn row_turn(loading: LoadingView, row: int) -> LoadProgressView {
    if row >= loading.rows.len() {
        LoadProgressView::Loaded
    } else {
        match row_plan(loading.rows[row], loading.has_key) {
            Err(message) => LoadProgressView::Fail(seq![message]),
            Ok(plan) => if plan == RowPlan::Unseal && !loading.connected {
                LoadProgressView::Work(LoadWork::ConnectTpm { row: row as usize })
            } else {
                LoadProgressView::Work(LoadWork::OpenRow { row: row as usize, plan })
            },
        }
    }
}

/// The sentence under which a failure of the work is reported.
pub open spec fn load_context(loading: LoadingView, work: LoadWork) -> Option<Seq<char>> {
    match work {
        LoadWork::GenerateKey => Some(Work::GenerateKey.context()),
        LoadWork::LoadKey => Some(Work::LoadKey.context()),
        LoadWork::ConnectForKey => Some(Work::ConnectTpm.context()),
        LoadWork::UnsealKey => Some(
            "failed to unseal AES key from "@ + loading.sealed_key_path,
        ),
        LoadWork::ReadEmbeddings => Some(Work::ReadEmbeddings.context()),
        LoadWork::ReadRawEmbeddings => Some(Work::ReadRawEmbeddings.context()),
        LoadWork::ConnectTpm { .. } => Some(Work::ConnectTpm.context()),
        LoadWork::OpenRow { row, plan } => if row < loading.rows.len() {
            row_context(loading.rows[row as int].id, plan)
        } else {
            None
        },
    }
}

/// The chain under which a failure of the work is reported.
pub open spec fn load_chain(
    loading: LoadingView,
    work: LoadWork,
    cause: Seq<Seq<char>>,
) -> Seq<Seq<char>> {
    match load_context(loading, work) {
        Some(context) => seq![context] + cause,
        None => cause,
    }
}

/// Where a load begins: with the key.
pub open spec fn load_start(
    plan: SealerPlan,
    seal_database: bool,
    sealed_key_path: Seq<char>,
) -> (LoadingView, LoadProgressView) {
    let loading = LoadingView {
        sealed_key_path,
        seal_database,
        has_key: false,
        rows: Seq::empty(),
        connected: false,
    };
    (
        loading,
        match plan {
            SealerPlan::NoSealer => LoadProgressView::Work(read_work(loading)),
            SealerPlan::GenerateThenLoad => LoadProgressView::Work(LoadWork::GenerateKey),
            SealerPlan::Load => LoadProgressView::Work(LoadWork::LoadKey),
            SealerPlan::UnsealKey => LoadProgressView::Work(LoadWork::ConnectForKey),
            SealerPlan::NoTpmSupport => LoadProgressView::Fail(seq![NO_TPM_SUPPORT@]),
        },
    )
}

/// What follows a piece of work. A failure ends the load.
pub open spec fn load_leads(loading: LoadingView, work: LoadWork, worked: LoadWorkedView) -> (
    LoadingView,
    LoadProgressView,
) {
    let keyed = LoadingView { has_key: true, ..loading };
    match (worked, work) {
        (LoadWorkedView::Failed(cause), _) => (
            loading,
            LoadProgressView::Fail(load_chain(loading, work, cause)),
        ),
        (_, LoadWork::GenerateKey) => (loading, LoadProgressView::Work(LoadWork::LoadKey)),
        (_, LoadWork::LoadKey) => (keyed, LoadProgressView::Work(read_work(keyed))),
        (_, LoadWork::ConnectForKey) => (loading, LoadProgressView::Work(LoadWork::UnsealKey)),
        (_, LoadWork::UnsealKey) => (keyed, LoadProgressView::Work(read_work(keyed))),
        (_, LoadWork::ReadEmbeddings) => (loading, LoadProgressView::Loaded),
        (LoadWorkedView::Rows(rows), LoadWork::ReadRawEmbeddings) => {
            let read = LoadingView { rows, ..loading };
            (read, row_turn(read, 0))
        },
        (_, LoadWork::ReadRawEmbeddings) => (loading, row_turn(loading, 0)),
        (_, LoadWork::ConnectTpm { row }) => {
            let joined = LoadingView { connected: true, ..loading };
            (joined, row_turn(joined, row as int))
        },
        (_, LoadWork::OpenRow { row, .. }) => (loading, row_turn(loading, row + 1)),
    }
}

fn one_sentence(sentence: String) -> (r: Vec<String>)
    ensures
        crate::text::texts(r@) == seq![sentence@],
{
    let mut chain: Vec<String> = Vec::new();
    chain.push(sentence);
    assert(crate::text::texts(chain@) =~= seq![sentence@]);
    chain
}

fn read_of(loading: &Loading) -> (r: LoadWork)
    ensures
        r == read_work(loading@),
{
    if reads_plain_rows(loading.has_key, loading.seal_database) {
        LoadWork::ReadEmbeddings
    } else {
        LoadWork::ReadRawEmbeddings
    }
}

fn row_of(loading: &Loading, row: usize) -> (r: LoadProgress)
    ensures
        r@ == row_turn(loading@, row as int),
{
    if row >= loading.rows.len() {
        return LoadProgress::Loaded;
    }
    match plan_row(&loading.rows[row], loading.has_key) {
        Err(message) => LoadProgress::Fail(one_sentence(message)),
        Ok(plan) => if plan == RowPlan::Unseal && !loading.connected {
            LoadProgress::Work(LoadWork::ConnectTpm { row })
        } else {
            LoadProgress::Work(LoadWork::OpenRow { row, plan })
        },
    }
}

fn load_failed(loading: &Loading, work: LoadWork, cause: Vec<String>) -> (r: Vec<String>)
    ensures
        crate::text::texts(r@) == load_chain(loading@, work, crate::text::texts(cause@)),
{
    match work {
        LoadWork::GenerateKey => under_context(Work::GenerateKey.failure(), cause),
        LoadWork::LoadKey => under_context(Work::LoadKey.failure(), cause),
        LoadWork::ConnectForKey => under_context(Work::ConnectTpm.failure(), cause),
        LoadWork::UnsealKey => {
            let context = unseal_key_failure(loading.sealed_key_path.as_str());
            under_context(context.as_str(), cause)
        },
        LoadWork::ReadEmbeddings => under_context(Work::ReadEmbeddings.failure(), cause),
        LoadWork::ReadRawEmbeddings => under_context(Work::ReadRawEmbeddings.failure(), cause),
        LoadWork::ConnectTpm { .. } => under_context(Work::ConnectTpm.failure(), cause),
        LoadWork::OpenRow { row, plan } => {
            if row >= loading.rows.len() {
                return cause;
            }
            match row_failure(loading.rows[row].id, plan) {
                Some(context) => under_context(context.as_str(), cause),
                None => cause,
            }
        },
    }
}

/// Where a load begins: with the key, as [`init_software_sealer`] plans it.
pub fn load_begin(plan: SealerPlan, seal_database: bool, sealed_key_path: String) -> (r: (
    Loading,
    LoadProgress,
))
    ensures
        (r.0@, r.1@) == load_start(plan, seal_database, sealed_key_path@),
{
    let loading = Loading {
        sealed_key_path,
        seal_database,
        has_key: false,
        rows: Vec::new(),
        connected: false,
    };
    assert(loading@.rows =~= Seq::<Row>::empty());
    let progress = match plan {
        SealerPlan::NoSealer => LoadProgress::Work(read_of(&loading)),
        SealerPlan::GenerateThenLoad => LoadProgress::Work(LoadWork::GenerateKey),
        SealerPlan::Load => LoadProgress::Work(LoadWork::LoadKey),
        SealerPlan::UnsealKey => LoadProgress::Work(LoadWork::ConnectForKey),
        SealerPlan::NoTpmSupport => LoadProgress::Fail(
            one_sentence(String::from_str(NO_TPM_SUPPORT)),
        ),
    };
    (loading, progress)
}

/// What follows a piece of work of a load.
pub fn load_next(loading: &mut Loading, work: LoadWork, worked: LoadWorked) -> (r: LoadProgress)
    ensures
        (final(loading)@, r@) == load_leads(old(loading)@, work, worked@),
{
    let read: Option<Vec<Row>> = match worked {
        LoadWorked::Failed(cause) => {
            return LoadProgress::Fail(load_failed(loading, work, cause));
        },
        LoadWorked::Rows(rows) => Some(rows),
        LoadWorked::Done => None,
    };
    match work {
        LoadWork::GenerateKey => LoadProgress::Work(LoadWork::LoadKey),
        LoadWork::ConnectForKey => LoadProgress::Work(LoadWork::UnsealKey),
        LoadWork::LoadKey | LoadWork::UnsealKey => {
            loading.has_key = true;
            LoadProgress::Work(read_of(loading))
        },
        LoadWork::ReadEmbeddings => LoadProgress::Loaded,
        LoadWork::ReadRawEmbeddings => {
            if let Some(rows) = read {
                loading.rows = rows;
            }
            row_of(loading, 0)
        },
        LoadWork::ConnectTpm { row } => {
            loading.connected = true;
            row_of(loading, row)
        },
        LoadWork::OpenRow { row, .. } => {
            if row >= loading.rows.len() {
                LoadProgress::Loaded
            } else {
                row_of(loading, row + 1)
            }
        },
    }
}

/// Where a load stands after its pieces of work came to this, one after another.
/// A load that is over stays where it is.
pub open spec fn load_after(
    plan: SealerPlan,
    seal_database: bool,
    sealed_key_path: Seq<char>,
    came_to: Seq<LoadWorkedView>,
) -> (LoadingView, LoadProgressView)
    decreases came_to.len(),
{
    if came_to.len() == 0 {
        load_start(plan, seal_database, sealed_key_path)
    } else {
        let before = load_after(plan, seal_database, sealed_key_path, came_to.drop_last());
        match before.1 {
            LoadProgressView::Work(work) => load_leads(before.0, work, came_to.last()),
            _ => before,
        }
    }
}

/// The work that a load was given, in order.
pub open spec fn load_works(
    plan: SealerPlan,
    seal_database: bool,
    sealed_key_path: Seq<char>,
    came_to: Seq<LoadWorkedView>,
) -> Seq<LoadWork>
    decreases came_to.len(),
{
    if came_to.len() == 0 {
        match load_start(plan, seal_database, sealed_key_path).1 {
            LoadProgressView::Work(work) => seq![work],
            _ => Seq::empty(),
        }
    } else {
        let rest = came_to.drop_last();
        let before = load_works(plan, seal_database, sealed_key_path, rest);
        if load_after(plan, seal_database, sealed_key_path, rest).1 is Work {
            match load_after(plan, seal_database, sealed_key_path, came_to).1 {
                LoadProgressView::Work(work) => before.push(work),
                _ => before,
            }
        } else {
            before
        }
    }
}

/// The places of the rows that are opened by some work, in order.
pub open spec fn rows_opened(works: Seq<LoadWork>) -> Seq<usize>
    decreases works.len(),
{
    if works.len() == 0 {
        Seq::empty()
    } else {
        let before = rows_opened(works.drop_last());
        match works.last() {
            LoadWork::OpenRow { row, .. } => before.push(row),
            _ => before,
        }
    }
}

/// How often some work connects to the TPM for the rows.
pub open spec fn connections(works: Seq<LoadWork>) -> nat
    decreases works.len(),
{
    if works.len() == 0 {
        0
    } else {
        connections(works.drop_last()) + (if works.last() is ConnectTpm {
            1nat
        } else {
            0nat
        })
    }
}

// ---------------------------------------------------------------------------
// Laws
// ---------------------------------------------------------------------------

/// What holds at every point of every load.
spec fn load_sound(
    plan: SealerPlan,
    seal_database: bool,
    now: (LoadingView, LoadProgressView),
    works: Seq<LoadWork>,
) -> bool {
    let (loading, progress) = now;
    let opened = rows_opened(works);
    &&& loading.seal_database == seal_database
    &&& forall|i: int| 0 <= i < opened.len() ==> #[trigger] opened[i] == i
    &&& loading.rows.len() <= usize::MAX
    &&& connections(works) == (if loading.connected || (progress is Work && progress->Work_0
        is ConnectTpm) {
        1nat
    } else {
        0nat
    }) || !(progress is Work) && connections(works) <= 1
    &&& match progress {
        LoadProgressView::Work(LoadWork::GenerateKey) => plan == SealerPlan::GenerateThenLoad
            && !loading.has_key,
        LoadProgressView::Work(LoadWork::LoadKey) => (plan == SealerPlan::GenerateThenLoad || plan
            == SealerPlan::Load) && !loading.has_key,
        LoadProgressView::Work(LoadWork::ConnectForKey) => plan == SealerPlan::UnsealKey
            && !loading.has_key,
        LoadProgressView::Work(LoadWork::UnsealKey) => plan == SealerPlan::UnsealKey
            && !loading.has_key,
        LoadProgressView::Work(_) => loading.has_key == (plan != SealerPlan::NoSealer) && plan
            != SealerPlan::NoTpmSupport,
        _ => true,
    }
    &&& match progress {
        LoadProgressView::Work(LoadWork::OpenRow { row, plan: opening }) => {
            &&& row < loading.rows.len()
            &&& opened.len() == row + 1
            &&& row_plan(loading.rows[row as int], loading.has_key) == Ok::<RowPlan, Seq<char>>(
                opening,
            )
            &&& (opening == RowPlan::Unseal ==> loading.connected)
        },
        LoadProgressView::Work(LoadWork::ConnectTpm { row }) => {
            &&& row < loading.rows.len()
            &&& opened.len() == row
            &&& !loading.connected
            &&& row_plan(loading.rows[row as int], loading.has_key) == Ok::<RowPlan, Seq<char>>(
                RowPlan::Unseal,
            )
        },
        LoadProgressView::Work(LoadWork::ReadEmbeddings) => opened.len() == 0
            && !loading.connected && !loading.has_key && !seal_database,
        LoadProgressView::Work(_) => opened.len() == 0 && !loading.connected && loading.rows.len()
            == 0,
        LoadProgressView::Loaded => opened.len() == loading.rows.len() || !loading.has_key
            && !seal_database,
        LoadProgressView::Fail(_) => true,
    }
}

/// Whether the lists of rows among the outcomes are as long as a list can be.
pub open spec fn rows_fit(came_to: Seq<LoadWorkedView>) -> bool {
    forall|i: int|
        0 <= i < came_to.len() ==> (#[trigger] came_to[i] matches LoadWorkedView::Rows(rows)
            ==> rows.len() <= usize::MAX)
}

proof fn lemma_load_sound(
    plan: SealerPlan,
    seal_database: bool,
    path: Seq<char>,
    came_to: Seq<LoadWorkedView>,
)
    requires
        rows_fit(came_to),
    ensures
        load_sound(
            plan,
            seal_database,
            load_after(plan, seal_database, path, came_to),
            load_works(plan, seal_database, path, came_to),
        ),
    decreases came_to.len(),
{
    if came_to.len() == 0 {
        reveal_with_fuel(rows_opened, 2);
        reveal_with_fuel(connections, 2);
    } else {
        let rest = came_to.drop_last();
        assert forall|i: int| 0 <= i < rest.len() implies (#[trigger] rest[i] matches
            LoadWorkedView::Rows(rows) ==> rows.len() <= usize::MAX) by {
            assert(rest[i] == came_to[i]);
        }
        lemma_load_sound(plan, seal_database, path, rest);
        assert(came_to.last() == came_to[came_to.len() - 1]);
        let before = load_works(plan, seal_database, path, rest);
        let now = load_after(plan, seal_database, path, came_to);
        if let LoadProgressView::Work(work) = now.1 {
            assert(before.push(work).drop_last() =~= before);
        }
    }
}

/// No row is read before the key is there, where the configuration has one; and
/// rows are taken for embeddings outright only where neither a key nor a sealed
/// database is configured.
pub proof fn law_the_key_comes_before_the_rows(
    plan: SealerPlan,
    seal_database: bool,
    path: Seq<char>,
    came_to: Seq<LoadWorkedView>,
)
    requires
        rows_fit(came_to),
    ensures
        ({
            let (loading, progress) = load_after(plan, seal_database, path, came_to);
            progress matches LoadProgressView::Work(work) ==> {
                &&& (work is ReadEmbeddings || work is ReadRawEmbeddings || work is ConnectTpm
                    || work is OpenRow) ==> loading.has_key == (plan != SealerPlan::NoSealer)
                    && plan != SealerPlan::NoTpmSupport
                &&& work is ReadEmbeddings ==> plan == SealerPlan::NoSealer && !seal_database
            }
        }),
{
    lemma_load_sound(plan, seal_database, path, came_to);
}

/// The rows are opened in order, none twice and none skipped, each as it is
/// planned, and all of them in a load that succeeds; and the TPM is connected to
/// for them at most once, before the first row that it unseals.
pub proof fn law_rows_are_opened_in_order(
    plan: SealerPlan,
    seal_database: bool,
    path: Seq<char>,
    came_to: Seq<LoadWorkedView>,
)
    requires
        rows_fit(came_to),
    ensures
        ({
            let works = load_works(plan, seal_database, path, came_to);
            let (loading, progress) = load_after(plan, seal_database, path, came_to);
            &&& forall|i: int|
                0 <= i < rows_opened(works).len() ==> #[trigger] rows_opened(works)[i] == i
            &&& connections(works) <= 1
            &&& progress is Loaded && (loading.has_key || seal_database) ==> rows_opened(
                works,
            ).len() == loading.rows.len()
            &&& progress matches LoadProgressView::Work(LoadWork::OpenRow { row, plan: opening })
                ==> {
                &&& row < loading.rows.len()
                &&& row_plan(loading.rows[row as int], loading.has_key) == Ok::<
                    RowPlan,
                    Seq<char>,
                >(opening)
                &&& opening == RowPlan::Unseal ==> loading.connected
            }
        }),
{
    lemma_load_sound(plan, seal_database, path, came_to);
}

/// A piece of work that fails ends the load: nothing is done after it.
pub proof fn law_a_failure_ends_the_load(
    loading: LoadingView,
    work: LoadWork,
    cause: Seq<Seq<char>>,
)
    ensures
        load_leads(loading, work, LoadWorkedView::Failed(cause)).1 == LoadProgressView::Fail(
            load_chain(loading, work, cause),
        ),
{
}

/// A sealed row is never taken for a raw embedding, and a row that is not sealed
/// never reaches the key or the TPM.
pub proof fn law_sealed_rows_are_never_read_raw(row: Row, has_key: bool)
    ensures
        row_plan(row, has_key) == Ok::<RowPlan, Seq<char>>(RowPlan::Raw) ==> !row.sealed
            && row.length == EMBEDDING_BYTES,
        row.sealed ==> row_plan(row, has_key) != Ok::<RowPlan, Seq<char>>(RowPlan::Raw),
        !row.sealed ==> row_plan(row, has_key) != Ok::<RowPlan, Seq<char>>(RowPlan::Decrypt)
            && row_plan(row, has_key) != Ok::<RowPlan, Seq<char>>(RowPlan::Unseal),
{
}

/// The camera that is opened is the device that was resolved, and the frames that
/// are thrown away after opening are as many as its quirk says, or as the
/// configuration says where no quirk does.
pub proof fn law_the_resolved_device_is_opened(
    device: DeviceInfo,
    configured_warmup: u32,
    quirk: Option<u32>,
)
    ensures
        camera_config(device, configured_warmup).0 == device.path@,
        crate::auth::warmup(quirk, camera_config(device, configured_warmup).1)
            == if quirk is Some {
            quirk->0
        } else {
            configured_warmup
        },
{
}

/// A camera that could not be resolved is reported above the cause; its path is
/// named exactly where the configuration names one.
pub proof fn law_an_unresolved_camera_is_named(path: Option<Seq<char>>, cause: Seq<char>)
    ensures
        unresolved_camera(path, cause).len() == 2,
        unresolved_camera(path, cause)[1] == cause,
        path matches Some(p) ==> crate::text::has_suffix(unresolved_camera(path, cause)[0], p)
            && unresolved_camera(path, cause)[0].len() == p.len() + 34,
        path is None ==> unresolved_camera(path, cause)[0]
            == "no camera device specified and auto-detection failed"@,
{
    reveal_strlit("failed to query configured camera ");
    if let Some(p) = path {
        let line = unresolved_camera(path, cause)[0];
        assert(line.skip(line.len() - p.len()) =~= p);
    }
}

/// No two pieces of work fail under the same sentence.
pub proof fn law_failures_are_told_apart(a: Work, b: Work)
    requires
        a != b,
    ensures
        a.context() != b.context(),
        Work::OpenStore.context() == "failed to open database"@,
        Work::ResolveCamera.context() == "failed to resolve camera device"@,
        Work::OpenCamera.context() == "failed to open camera"@,
        Work::LoadEngine.context() == "failed to load face engine"@,
        Work::ConnectTpm.context() == "TPM initialization failed"@,
{
    reveal_strlit("failed to open database");
    reveal_strlit("failed to resolve camera device");
    reveal_strlit("failed to open camera");
    reveal_strlit("failed to load face engine");
    reveal_strlit("failed to auto-generate encryption key");
    reveal_strlit("failed to initialize software encryption sealer");
    reveal_strlit("TPM initialization failed");
    reveal_strlit("storage error loading embeddings");
    reveal_strlit("storage error loading raw embeddings");
    reveal_strlit("storage error listing face models");
    reveal_strlit("failed to enumerate devices");
    let length = |w: Work| w.context().len();
    assert(length(Work::OpenStore) == 23 && length(Work::ResolveCamera) == 31);
    assert(length(Work::OpenCamera) == 21 && length(Work::LoadEngine) == 26);
    assert(length(Work::GenerateKey) == 38 && length(Work::LoadKey) == 47);
    assert(length(Work::ConnectTpm) == 25 && length(Work::ReadEmbeddings) == 32);
    assert(length(Work::ReadRawEmbeddings) == 36 && length(Work::ListModels) == 33);
    assert(length(Work::EnumerateDevices) == 27);
    assert(length(a) != length(b));
}

/// A failure of a test or an enrollment keeps every cause, under at most one
/// sentence, which is the one of the work that failed.
pub proof fn law_causes_are_kept(work: TestWork, step: EnrollWork, cause: Seq<Seq<char>>)
    ensures
        test_chain(work, cause) == match work {
            TestWork::OpenStore => seq![Work::OpenStore.context()] + cause,
            TestWork::ClassifyCamera => seq![Work::ResolveCamera.context()] + cause,
            TestWork::OpenCamera => seq![Work::OpenCamera.context()] + cause,
            TestWork::LoadEngine => seq![Work::LoadEngine.context()] + cause,
            TestWork::ListModels => seq![Work::ListModels.context()] + cause,
            _ => cause,
        },
        test_chain(work, cause).skip(test_chain(work, cause).len() - cause.len()) == cause,
        enroll_chain(step, cause).skip(enroll_chain(step, cause).len() - cause.len()) == cause,
        enroll_chain(step, cause).len() == cause.len() + 1 <==> step is OpenStore || step
            is OpenCamera || step is LoadEngine,
        step is OpenStore ==> enroll_chain(step, cause) == test_chain(TestWork::OpenStore, cause),
        step is OpenCamera ==> enroll_chain(step, cause) == test_chain(TestWork::OpenCamera, cause),
        step is LoadEngine ==> enroll_chain(step, cause) == test_chain(TestWork::LoadEngine, cause),
{
    let a = test_chain(work, cause);
    let b = enroll_chain(step, cause);
    assert(a.skip(a.len() - cause.len()) =~= cause);
    assert(b.skip(b.len() - cause.len()) =~= cause);
}

/// Exactly the rules and the comparison of a test are audited, and as a test.
pub proof fn law_a_test_is_audited_as_one(work: TestWork)
    ensures
        work.audited_as() is Some <==> work is PreCheck || work is Compare,
        work.audited_as() matches Some(source) ==> source == AuditSource::Test,
{
}

/// A test that nothing stops does its work in this order, and its comparison comes
/// last.
pub proof fn law_a_test_does_its_work_in_order()
    ensures
        test_work(0) == Some(TestWork::OpenStore),
        test_work(1) == Some(TestWork::ClassifyCamera),
        test_work(2) == Some(TestWork::PreCheck),
        test_work(3) == Some(TestWork::ResolveCamera),
        test_work(4) == Some(TestWork::OpenCamera),
        test_work(5) == Some(TestWork::LoadEngine),
        test_work(6) == Some(TestWork::LoadEmbeddings),
        test_work(7) == Some(TestWork::ListModels),
        test_work(8) == Some(TestWork::Compare),
        test_work(9) is None,
{
    reveal_with_fuel(test_work, 10);
}

/// A test's verdict is the one that came back; a suppressed attempt is no match; and
/// an error is the message of the failure. Only an answer that says matched becomes
/// a match.
pub proof fn law_the_verdict_of_a_test_is_the_answers(answer: ResponseView)
    ensures
        answer matches ResponseView::AuthResult(m) ==> pre_check_verdict(answer) == Ok::<
            MatchResult<Seq<char>>,
            Seq<char>,
        >(m) && test_verdict(answer) == Ok::<MatchResult<Seq<char>>, Seq<char>>(m),
        answer is Suppressed ==> (pre_check_verdict(answer) matches Ok(m) && !m.matched
            && m.model_id is None && m.label is None && m.failure_reason is None),
        answer is Suppressed ==> test_verdict(answer) is Err,
        answer matches ResponseView::Error { message } ==> pre_check_verdict(answer) == Err::<
            MatchResult<Seq<char>>,
            Seq<char>,
        >(message) && test_verdict(answer) == Err::<MatchResult<Seq<char>>, Seq<char>>(message),
        !(answer is AuthResult || answer is Suppressed || answer is Error) ==> pre_check_verdict(
            answer,
        ) is Err && test_verdict(answer) is Err,
        (pre_check_verdict(answer) matches Ok(m) && m.matched) ==> answer is AuthResult,
        (test_verdict(answer) matches Ok(m) && m.matched) ==> answer is AuthResult,
{
}

/// What follows a piece of work of a test: the next piece once it is done, the
/// chain of its causes once it failed, the verdict once there is an answer.
pub proof fn law_a_test_goes_on_only_after_work_done(work: TestWork, worked: Worked)
    ensures
        test_leads(work, worked) is Work <==> worked is Done && !(work is Compare),
        worked is Done ==> (test_leads(work, worked) matches TestProgressView::Work(next)
            ==> test_after(work) == Some(next)),
        worked matches Worked::Failed(chain) ==> test_leads(work, worked) == TestProgressView::Fail(
            test_chain(work, crate::text::texts(chain@)),
        ),
        (worked matches Worked::Answered(answer) && answer@ is AuthResult) ==> test_leads(
            work,
            worked,
        ) == TestProgressView::Verdict(worked->Answered_0@->AuthResult_0),
{
}

/// The work that an enrollment has got to after so many pieces that were all done.
pub open spec fn enroll_work(n: nat) -> Option<EnrollWork>
    decreases n,
{
    if n == 0 {
        Some(EnrollWork::CheckAllowed)
    } else {
        match enroll_work((n - 1) as nat) {
            Some(work) => enroll_after(work),
            None => None,
        }
    }
}

/// An enrollment that nothing stops does its work in this order: whether a template
/// may be stored is asked before anything is opened, and the key is there before
/// the capture.
pub proof fn law_an_enrollment_does_its_work_in_order()
    ensures
        enroll_work(0) == Some(EnrollWork::CheckAllowed),
        enroll_work(1) == Some(EnrollWork::OpenStore),
        enroll_work(2) == Some(EnrollWork::ResolveCamera),
        enroll_work(3) == Some(EnrollWork::OpenCamera),
        enroll_work(4) == Some(EnrollWork::LoadEngine),
        enroll_work(5) == Some(EnrollWork::InitSealer),
        enroll_work(6) == Some(EnrollWork::Enroll),
        enroll_work(7) is None,
{
    reveal_with_fuel(enroll_work, 8);
}

/// An enrollment goes on only after work that was done, succeeds only with the
/// answer that says so, and with that answer's numbers.
pub proof fn law_an_enrollment_succeeds_by_its_answer(work: EnrollWork, worked: Worked)
    ensures
        enroll_leads(work, worked) is Work <==> worked is Done && !(work is Enroll),
        worked is Done ==> (enroll_leads(work, worked) matches EnrollProgressView::Work(next)
            ==> enroll_after(work) == Some(next)),
        enroll_leads(work, worked) is Enrolled <==> (worked matches Worked::Answered(answer)
            && answer@ is Enrolled),
        enroll_leads(work, worked) matches EnrollProgressView::Enrolled(id, count)
            ==> worked->Answered_0@ == (ResponseView::Enrolled {
            model_id: id,
            embedding_count: count,
        }),
        (worked matches Worked::Answered(answer) && answer@ is Error) ==> enroll_leads(
            work,
            worked,
        ) == EnrollProgressView::Fail(seq![worked->Answered_0@->Error_message]),
        worked matches Worked::Failed(chain) ==> enroll_leads(work, worked)
            == EnrollProgressView::Fail(enroll_chain(work, crate::text::texts(chain@))),
{
}

/// How the key is come by: a key file is made exactly where it is configured and
/// missing, the TPM is asked exactly where it is configured and can be used, and
/// only plain text does without a key.
pub proof fn law_a_key_is_had_unless_none_is_wanted(
    method: EncryptionMethod,
    key_file_exists: bool,
    tpm_support: bool,
)
    ensures
        ({
            let plan = sealer_plan(method, key_file_exists, tpm_support);
            &&& plan is GenerateThenLoad <==> method is Keyfile && !key_file_exists
            &&& plan is Load <==> method is Keyfile && key_file_exists
            &&& plan is UnsealKey <==> method is Tpm && tpm_support
            &&& plan is NoTpmSupport <==> method is Tpm && !tpm_support
            &&& plan is NoSealer <==> method is Plaintext
        }),
{
}

/// How a row becomes an embedding: it is decrypted exactly if it is sealed under the
/// software encryption and there is a key, unsealed exactly if it is sealed
/// otherwise, and read as it is exactly if it is not sealed and has the 2048 bytes of
/// an embedding. Any other row is refused, and the refusal names it.
pub proof fn law_every_row_has_one_way_to_be_read(row: Row, has_key: bool)
    ensures
        row_plan(row, has_key) == Ok::<RowPlan, Seq<char>>(RowPlan::Decrypt) <==> row.sealed
            && row.software_encrypted && has_key,
        row_plan(row, has_key) == Ok::<RowPlan, Seq<char>>(RowPlan::Unseal) <==> row.sealed
            && !row.software_encrypted,
        row_plan(row, has_key) == Ok::<RowPlan, Seq<char>>(RowPlan::Raw) <==> !row.sealed
            && row.length == 2048,
        row_plan(row, has_key) is Err <==> (row.sealed && row.software_encrypted && !has_key) || (
        !row.sealed && row.length != 2048),
        row_plan(row, has_key) matches Err(message) ==> (exists|front: Seq<char>, back: Seq<char>|
            message == #[trigger] (front + crate::text::decimal(row.id as nat) + back)),
{
    if let Err(message) = row_plan(row, has_key) {
        let id = crate::text::decimal(row.id as nat);
        if row.sealed {
            assert(message == "embedding "@ + id
                + " is software-encrypted but no key is configured"@);
        } else {
            let back = ": expected 2048 bytes, got "@ + crate::text::decimal(row.length as nat);
            assert(message =~= "invalid raw embedding size for id "@ + id + back);
        }
    }
}

/// The rows that are planned are all those before the first that cannot be read.
pub proof fn law_planning_stops_at_the_first_bad_row(rows: Seq<Row>, has_key: bool)
    ensures
        planned(rows, has_key) <= rows.len(),
        forall|i: int|
            0 <= i < planned(rows, has_key) ==> row_plan(#[trigger] rows[i], has_key) is Ok,
        planned(rows, has_key) < rows.len() ==> row_plan(
            rows[planned(rows, has_key) as int],
            has_key,
        ) is Err,
    decreases rows.len(),
{
    if rows.len() > 0 && row_plan(rows[0], has_key) is Ok {
        let rest = rows.skip(1);
        law_planning_stops_at_the_first_bad_row(rest, has_key);
        assert forall|i: int| 0 <= i < planned(rows, has_key) implies row_plan(
            #[trigger] rows[i],
            has_key,
        ) is Ok by {
            if i > 0 {
                assert(rest[i - 1] == rows[i]);
            }
        }
        if planned(rows, has_key) < rows.len() {
            assert(rest[planned(rest, has_key) as int] == rows[planned(rows, has_key) as int]);
        }
    }
}

/// A load with a key gets it first: made and then loaded, loaded, or unsealed by a
/// TPM that was connected to. Only then are the rows read, and outright exactly where
/// there is neither a key nor a sealed database.
pub proof fn law_a_load_gets_its_key_then_its_rows(
    loading: LoadingView,
    seal_database: bool,
    path: Seq<char>,
    rows: Seq<Row>,
)
    ensures
        load_start(SealerPlan::GenerateThenLoad, seal_database, path).1 == LoadProgressView::Work(
            LoadWork::GenerateKey,
        ),
        load_start(SealerPlan::Load, seal_database, path).1 == LoadProgressView::Work(
            LoadWork::LoadKey,
        ),
        load_start(SealerPlan::UnsealKey, seal_database, path).1 == LoadProgressView::Work(
            LoadWork::ConnectForKey,
        ),
        load_start(SealerPlan::NoTpmSupport, seal_database, path).1 is Fail,
        load_start(SealerPlan::NoSealer, seal_database, path).1 == LoadProgressView::Work(
            if seal_database {
                LoadWork::ReadRawEmbeddings
            } else {
                LoadWork::ReadEmbeddings
            },
        ),
        load_leads(loading, LoadWork::GenerateKey, LoadWorkedView::Done).1
            == LoadProgressView::Work(LoadWork::LoadKey),
        load_leads(loading, LoadWork::ConnectForKey, LoadWorkedView::Done).1
            == LoadProgressView::Work(LoadWork::UnsealKey),
        load_leads(loading, LoadWork::LoadKey, LoadWorkedView::Done) == (
            LoadingView { has_key: true, ..loading },
            LoadProgressView::Work(LoadWork::ReadRawEmbeddings),
        ),
        load_leads(loading, LoadWork::UnsealKey, LoadWorkedView::Done) == (
            LoadingView { has_key: true, ..loading },
            LoadProgressView::Work(LoadWork::ReadRawEmbeddings),
        ),
        load_leads(loading, LoadWork::ReadEmbeddings, LoadWorkedView::Done).1 is Loaded,
        load_leads(loading, LoadWork::ReadRawEmbeddings, LoadWorkedView::Rows(rows)).0.rows == rows,
        rows.len() == 0 ==> load_leads(
            loading,
            LoadWork::ReadRawEmbeddings,
            LoadWorkedView::Rows(rows),
        ).1 is Loaded,
        rows_are_plain(loading.has_key, seal_database) <==> !loading.has_key && !seal_database,
{
}

/// What is done about a row: it is opened as it is planned, after the TPM was
/// connected to where it needs it; and a row without a plan ends the load.
pub proof fn law_a_row_is_opened_as_planned(loading: LoadingView, row: usize)
    requires
        row < loading.rows.len(),
    ensures
        ({
            let plan = row_plan(loading.rows[row as int], loading.has_key);
            let turn = row_turn(loading, row as int);
            &&& plan is Err ==> turn == LoadProgressView::Fail(seq![plan->Err_0])
            &&& plan is Ok && (plan->Ok_0 != RowPlan::Unseal || loading.connected) ==> turn
                == LoadProgressView::Work(LoadWork::OpenRow { row, plan: plan->Ok_0 })
            &&& plan is Ok && plan->Ok_0 == RowPlan::Unseal && !loading.connected ==> turn
                == LoadProgressView::Work(LoadWork::ConnectTpm { row })
            &&& turn == LoadProgressView::Work(LoadWork::ConnectTpm { row }) ==> load_leads(
                loading,
                LoadWork::ConnectTpm { row },
                LoadWorkedView::Done,
            ) == (
                LoadingView { connected: true, ..loading },
                LoadProgressView::Work(LoadWork::OpenRow { row, plan: RowPlan::Unseal }),
            )
        }),
{
}

/// A failed load names the row or the key that would not open, above the causes.
pub proof fn law_a_failed_load_names_what_would_not_open(
    loading: LoadingView,
    row: usize,
    plan: RowPlan,
    cause: Seq<Seq<char>>,
)
    requires
        row < loading.rows.len(),
    ensures
        load_chain(loading, LoadWork::UnsealKey, cause) == seq![
            "failed to unseal AES key from "@ + loading.sealed_key_path,
        ] + cause,
        load_chain(loading, LoadWork::ConnectForKey, cause) == seq![Work::ConnectTpm.context()]
            + cause,
        load_chain(loading, LoadWork::GenerateKey, cause) == seq![Work::GenerateKey.context()]
            + cause,
        load_chain(loading, LoadWork::LoadKey, cause) == seq![Work::LoadKey.context()] + cause,
        ({
            let chain = load_chain(loading, LoadWork::OpenRow { row, plan }, cause);
            let id = crate::text::decimal(loading.rows[row as int].id as nat);
            &&& plan is Decrypt ==> chain == seq![
                "software decryption failed for embedding "@ + id,
            ] + cause
            &&& plan is Unseal ==> chain == seq!["TPM unseal failed for embedding "@ + id] + cause
            &&& plan is Raw ==> chain == cause
        }),
{
}

/// The work that a test has got to after so many pieces that were all done.
pub open spec fn test_work(n: nat) -> Option<TestWork>
    decreases n,
{
    if n == 0 {
        Some(TestWork::OpenStore)
    } else {
        match test_work((n - 1) as nat) {
            Some(work) => test_after(work),
            None => None,
        }
    }
}

/// A test opens the camera only after the pre-flight rules let it pass, and any
/// answer of theirs ends it.
pub proof fn law_rules_come_before_the_camera(n: nat, answer: DaemonResponse)
    ensures
        test_work(n) == Some(TestWork::OpenCamera) ==> exists|k: nat|
            k < n && #[trigger] test_work(k) == Some(TestWork::PreCheck),
        !(test_leads(TestWork::PreCheck, Worked::Answered(answer)) is Work),
{
    lemma_test_order(n);
    assert(test_work(2) == Some(TestWork::PreCheck)) by {
        reveal_with_fuel(test_work, 3);
    }
}

proof fn lemma_test_order(n: nat)
    ensures
        match test_work(n) {
            Some(TestWork::OpenStore) => n == 0,
            Some(TestWork::ClassifyCamera) => n == 1,
            Some(TestWork::PreCheck) => n == 2,
            Some(TestWork::ResolveCamera) => n == 3,
            Some(TestWork::OpenCamera) => n == 4,
            Some(TestWork::LoadEngine) => n == 5,
            Some(TestWork::LoadEmbeddings) => n == 6,
            Some(TestWork::ListModels) => n == 7,
            Some(TestWork::Compare) => n == 8,
            None => n > 8,
        },
    decreases n,
{
    if n > 0 {
        lemma_test_order((n - 1) as nat);
    }
}

/// Every row loads if each is sealed under the key, sealed by the TPM, or has
/// the length of an embedding.
pub proof fn law_well_kept_rows_all_load(rows: Seq<Row>)
    requires
        forall|i: int|
            0 <= i < rows.len() ==> (#[trigger] rows[i]).sealed || rows[i].length
                == EMBEDDING_BYTES,
    ensures
        planned(rows, true) == rows.len(),
    decreases rows.len(),
{
    if rows.len() > 0 {
        let rest = rows.skip(1);
        assert forall|i: int| 0 <= i < rest.len() implies (#[trigger] rest[i]).sealed
            || rest[i].length == EMBEDDING_BYTES by {
            assert(rest[i] == rows[i + 1]);
        }
        law_well_kept_rows_all_load(rest);
    }
}

} // verus!
