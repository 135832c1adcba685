//! The report on the installation: what is configured, what is there, and what
//! is missing. Each section takes what was found and gives the lines to print.

use crate::direct::EncryptionMethod;
use crate::paths::file_name_of;
use crate::text::{decimal_of, holds, same, strip_prefix, yes_or_no};
use vstd::prelude::*;
use vstd::string::*;

verus! {

// ---------------------------------------------------------------------------
// Lines
// ---------------------------------------------------------------------------

/// The heading of a section.
pub open spec fn item(label: Seq<char>, value: Seq<char>) -> Seq<char> {
    if value.len() == 0 {
        "  "@ + label + ":"@
    } else {
        "  "@ + label + ": "@ + value
    }
}

/// A finding, good or bad.
pub open spec fn finding(good: bool, message: Seq<char>) -> Seq<char> {
    "    "@ + (if good {
        "[ok]"@
    } else {
        "[!!]"@
    }) + " "@ + message
}

/// A detail.
pub open spec fn detail(key: Seq<char>, value: Seq<char>) -> Seq<char> {
    "    - "@ + key + ": "@ + value
}

fn item_line(label: &str, value: &str) -> (r: String)
    ensures
        r@ == item(label@, value@),
{
    proof {
        reveal_strlit("");
        assert(value@.len() == 0 ==> value@ =~= ""@);
    }
    let mut line = String::from_str("  ");
    line.append(label);
    if same(value, "") {
        line.append(":");
    } else {
        line.append(": ");
        line.append(value);
    }
    line
}

fn finding_line(good: bool, message: &str) -> (r: String)
    ensures
        r@ == finding(good, message@),
{
    let mut line = String::from_str("    ");
    line.append(
        if good {
            "[ok]"
        } else {
            "[!!]"
        },
    );
    line.append(" ");
    line.append(message);
    line
}

fn detail_line(key: &str, value: &str) -> (r: String)
    ensures
        r@ == detail(key@, value@),
{
    let mut line = String::from_str("    - ");
    line.append(key);
    line.append(": ");
    line.append(value);
    line
}

fn joined_texts(a: &str, b: &str) -> (r: String)
    ensures
        r@ == a@ + b@,
{
    let mut s = String::from_str(a);
    s.append(b);
    s
}

fn pair(a: String, b: String) -> (r: Vec<String>)
    ensures
        crate::text::texts(r@) == seq![a@, b@],
{
    let mut lines: Vec<String> = Vec::new();
    lines.push(a);
    lines.push(b);
    assert(crate::text::texts(lines@) =~= seq![a@, b@]);
    lines
}

fn no_lines() -> (r: Vec<String>)
    ensures
        crate::text::texts(r@) == Seq::<Seq<char>>::empty(),
{
    let lines: Vec<String> = Vec::new();
    assert(crate::text::texts(lines@) =~= Seq::<Seq<char>>::empty());
    lines
}

// ---------------------------------------------------------------------------
// The configuration, the daemon and the camera
// ---------------------------------------------------------------------------

/// What came of reading the configuration.
#[derive(Debug)]
pub enum ConfigOutcome<S = String> {
    Valid { device_path: Option<S> },
    NotFound,
    Invalid { error: S },
}

impl View for ConfigOutcome<String> {
    type V = ConfigOutcome<Seq<char>>;

    open spec fn view(&self) -> ConfigOutcome<Seq<char>> {
        match *self {
            ConfigOutcome::Valid { device_path } => ConfigOutcome::Valid {
                device_path: crate::text::opt_text(device_path),
            },
            ConfigOutcome::NotFound => ConfigOutcome::NotFound,
            ConfigOutcome::Invalid { error } => ConfigOutcome::Invalid { error: error@ },
        }
    }
}

/// The section on the configuration.
pub open spec fn config_section(path: Seq<char>, outcome: ConfigOutcome<Seq<char>>) -> Seq<
    Seq<char>,
> {
    seq![item("Config file"@, path)] + match outcome {
        ConfigOutcome::Valid { device_path } => seq![
            finding(true, "valid"@),
            detail(
                "device.path"@,
                match device_path {
                    Some(p) => p,
                    None => "(auto-detect)"@,
                },
            ),
        ],
        ConfigOutcome::NotFound => seq![finding(false, "not found"@)],
        ConfigOutcome::Invalid { error } => seq![finding(false, "invalid: "@ + error)],
    }
}

/// The section on the configuration.
pub fn check_config(path: &str, outcome: &ConfigOutcome) -> (r: Vec<String>)
    ensures
        crate::text::texts(r@) == config_section(path@, outcome@),
{
    let mut lines: Vec<String> = Vec::new();
    lines.push(item_line("Config file", path));
    match outcome {
        ConfigOutcome::Valid { device_path } => {
            lines.push(finding_line(true, "valid"));
            match device_path {
                Some(p) => {
                    lines.push(detail_line("device.path", p.as_str()));
                },
                None => {
                    lines.push(detail_line("device.path", "(auto-detect)"));
                },
            }
        },
        ConfigOutcome::NotFound => {
            lines.push(finding_line(false, "not found"));
        },
        ConfigOutcome::Invalid { error } => {
            lines.push(finding_line(false, joined_texts("invalid: ", error.as_str()).as_str()));
        },
    }
    assert(crate::text::texts(lines@) =~= config_section(path@, outcome@));
    lines
}

/// What the daemon was found to be.
#[derive(Debug)]
pub enum DaemonState<S = String> {
    /// The configuration does without it.
    Oneshot,
    Responding,
    /// It answered, and not as it should.
    Odd,
    Silent { error: S },
}

impl View for DaemonState<String> {
    type V = DaemonState<Seq<char>>;

    open spec fn view(&self) -> DaemonState<Seq<char>> {
        match *self {
            DaemonState::Oneshot => DaemonState::Oneshot,
            DaemonState::Responding => DaemonState::Responding,
            DaemonState::Odd => DaemonState::Odd,
            DaemonState::Silent { error } => DaemonState::Silent { error: error@ },
        }
    }
}

/// The section on the daemon. Without a configuration there is no telling.
pub open spec fn daemon_section(state: Option<DaemonState<Seq<char>>>) -> Seq<Seq<char>> {
    match state {
        None => seq![
            item("Daemon"@, ""@),
            finding(false, "config not loaded, cannot check daemon"@),
        ],
        Some(s) => seq![
            item("Daemon"@, "org.facelock.Daemon (D-Bus system bus)"@),
            match s {
                DaemonState::Oneshot => finding(true, "oneshot mode (no daemon)"@),
                DaemonState::Responding => finding(true, "responding"@),
                DaemonState::Odd => finding(true, "connected (unexpected response)"@),
                DaemonState::Silent { error } => finding(false, "not responding: "@ + error),
            },
        ],
    }
}

/// The section on the daemon.
pub fn check_daemon(state: &Option<DaemonState>) -> (r: Vec<String>)
    ensures
        crate::text::texts(r@) == daemon_section(
            match *state {
                Some(s) => Some(s@),
                None => None,
            },
        ),
{
    match state {
        None => pair(
            item_line("Daemon", ""),
            finding_line(false, "config not loaded, cannot check daemon"),
        ),
        Some(s) => {
            let line = match s {
                DaemonState::Oneshot => finding_line(true, "oneshot mode (no daemon)"),
                DaemonState::Responding => finding_line(true, "responding"),
                DaemonState::Odd => finding_line(true, "connected (unexpected response)"),
                DaemonState::Silent { error } => finding_line(
                    false,
                    joined_texts("not responding: ", error.as_str()).as_str(),
                ),
            };
            pair(item_line("Daemon", "org.facelock.Daemon (D-Bus system bus)"), line)
        },
    }
}

/// The camera that is configured, and whether it is there.
#[derive(Debug)]
pub enum CameraPresence<S = String> {
    Configured { path: S, present: bool },
    AutoDetect,
}

impl View for CameraPresence<String> {
    type V = CameraPresence<Seq<char>>;

    open spec fn view(&self) -> CameraPresence<Seq<char>> {
        match *self {
            CameraPresence::Configured { path, present } => CameraPresence::Configured {
                path: path@,
                present,
            },
            CameraPresence::AutoDetect => CameraPresence::AutoDetect,
        }
    }
}

/// The section on the camera.
pub open spec fn camera_section(camera: Option<CameraPresence<Seq<char>>>) -> Seq<Seq<char>> {
    match camera {
        None => seq![item("Camera"@, ""@), finding(false, "config not available"@)],
        Some(CameraPresence::Configured { path, present }) => seq![
            item("Camera device"@, path),
            finding(
                present,
                if present {
                    "device exists"@
                } else {
                    "device not found"@
                },
            ),
        ],
        Some(CameraPresence::AutoDetect) => seq![
            item("Camera device"@, "(auto-detect)"@),
            finding(true, "auto-detect enabled"@),
        ],
    }
}

/// The section on the camera.
pub fn check_camera(camera: &Option<CameraPresence>) -> (r: Vec<String>)
    ensures
        crate::text::texts(r@) == camera_section(
            match *camera {
                Some(c) => Some(c@),
                None => None,
            },
        ),
{
    match camera {
        None => pair(item_line("Camera", ""), finding_line(false, "config not available")),
        Some(CameraPresence::Configured { path, present }) => pair(
            item_line("Camera device", path.as_str()),
            finding_line(
                *present,
                if *present {
                    "device exists"
                } else {
                    "device not found"
                },
            ),
        ),
        Some(CameraPresence::AutoDetect) => pair(
            item_line("Camera device", "(auto-detect)"),
            finding_line(true, "auto-detect enabled"),
        ),
    }
}

// ---------------------------------------------------------------------------
// Models and inference
// ---------------------------------------------------------------------------

/// A configured model file, and whether it is there.
#[derive(Debug)]
pub struct ModelFile<S = String> {
    pub path: S,
    pub present: bool,
}

/// The configured model files.
#[derive(Debug)]
pub struct ModelFiles<S = String> {
    pub dir: S,
    pub dir_present: bool,
    pub detector: ModelFile<S>,
    pub embedder: ModelFile<S>,
}

impl View for ModelFile<String> {
    type V = ModelFile<Seq<char>>;

    open spec fn view(&self) -> ModelFile<Seq<char>> {
        ModelFile { path: self.path@, present: self.present }
    }
}

impl View for ModelFiles<String> {
    type V = ModelFiles<Seq<char>>;

    open spec fn view(&self) -> ModelFiles<Seq<char>> {
        ModelFiles {
            dir: self.dir@,
            dir_present: self.dir_present,
            detector: self.detector@,
            embedder: self.embedder@,
        }
    }
}

impl ModelFiles<String> {
    /// Whether every configured model file is there.
    pub fn all_present(&self) -> (r: bool)
        ensures
            r == (self.detector.present && self.embedder.present),
    {
        self.detector.present && self.embedder.present
    }
}

/// The detail of a model file.
pub open spec fn model_detail(purpose: Seq<char>, file: ModelFile<Seq<char>>) -> Seq<char> {
    detail(
        purpose + " ("@ + crate::paths::file_name(file.path) + ")"@,
        if file.present {
            "present"@
        } else {
            "MISSING"@
        },
    )
}

/// The section on the models.
pub open spec fn models_section(models: Option<ModelFiles<Seq<char>>>) -> Seq<Seq<char>> {
    match models {
        None => seq![item("Models"@, ""@), finding(false, "config not available"@)],
        Some(m) => if !m.dir_present {
            seq![item("Model directory"@, m.dir), finding(false, "directory not found"@)]
        } else {
            seq![
                item("Model directory"@, m.dir),
                model_detail("detector"@, m.detector),
                model_detail("embedder"@, m.embedder),
                if m.detector.present && m.embedder.present {
                    finding(true, "all configured models present"@)
                } else {
                    finding(false, "some models missing (run 'facelock setup')"@)
                },
            ]
        },
    }
}

fn model_detail_line(purpose: &str, file: &ModelFile) -> (r: String)
    ensures
        r@ == model_detail(purpose@, file@),
{
    let mut key = String::from_str(purpose);
    key.append(" (");
    key.append(file_name_of(file.path.as_str()).as_str());
    key.append(")");
    detail_line(
        key.as_str(),
        if file.present {
            "present"
        } else {
            "MISSING"
        },
    )
}

/// The section on the models.
pub fn check_models(models: &Option<ModelFiles>) -> (r: Vec<String>)
    ensures
        crate::text::texts(r@) == models_section(
            match *models {
                Some(m) => Some(m@),
                None => None,
            },
        ),
{
    match models {
        None => pair(item_line("Models", ""), finding_line(false, "config not available")),
        Some(m) => {
            if !m.dir_present {
                return pair(
                    item_line("Model directory", m.dir.as_str()),
                    finding_line(false, "directory not found"),
                );
            }
            let mut lines: Vec<String> = Vec::new();
            lines.push(item_line("Model directory", m.dir.as_str()));
            lines.push(model_detail_line("detector", &m.detector));
            lines.push(model_detail_line("embedder", &m.embedder));
            if m.all_present() {
                lines.push(finding_line(true, "all configured models present"));
            } else {
                lines.push(finding_line(false, "some models missing (run 'facelock setup')"));
            }
            assert(crate::text::texts(lines@) =~= models_section(Some(m@)));
            lines
        },
    }
}

/// Whether the installed runtime has the configured provider.
#[derive(Debug)]
pub enum EpStatus<S = String> {
    Available,
    NotBuiltIn,
    UnknownName,
    Unqueryable(S),
}

impl View for EpStatus<String> {
    type V = EpStatus<Seq<char>>;

    open spec fn view(&self) -> EpStatus<Seq<char>> {
        match *self {
            EpStatus::Available => EpStatus::Available,
            EpStatus::NotBuiltIn => EpStatus::NotBuiltIn,
            EpStatus::UnknownName => EpStatus::UnknownName,
            EpStatus::Unqueryable(e) => EpStatus::Unqueryable(e@),
        }
    }
}

/// The configured provider, and whether the installed runtime has it.
#[derive(Debug)]
pub struct ExecutionProvider<S = String> {
    pub configured: S,
    pub status: EpStatus<S>,
}

impl View for ExecutionProvider<String> {
    type V = ExecutionProvider<Seq<char>>;

    open spec fn view(&self) -> ExecutionProvider<Seq<char>> {
        ExecutionProvider { configured: self.configured@, status: self.status@ }
    }
}

/// A provider's name for people.
pub open spec fn provider_label(configured: Seq<char>) -> Seq<char> {
    if configured == "cpu"@ {
        "CPU"@
    } else if configured == "cuda"@ {
        "CUDA (NVIDIA GPU)"@
    } else if configured == "rocm"@ {
        "ROCm (AMD GPU)"@
    } else if configured == "openvino"@ {
        "OpenVINO (Intel)"@
    } else {
        configured
    }
}

/// The section on inference. Without a configuration there is none.
pub open spec fn inference_section(provider: Option<ExecutionProvider<Seq<char>>>) -> Seq<
    Seq<char>,
> {
    match provider {
        None => Seq::empty(),
        Some(p) => seq![
            item("Execution provider"@, provider_label(p.configured)),
            match p.status {
                EpStatus::Available => finding(true, "supported by the installed ONNX Runtime"@),
                EpStatus::NotBuiltIn => finding(
                    false,
                    "not built into the installed ONNX Runtime — inference will fall back to CPU"@,
                ),
                EpStatus::UnknownName => finding(
                    false,
                    "unknown execution provider (valid: cpu, cuda, rocm, openvino)"@,
                ),
                EpStatus::Unqueryable(e) => finding(false, "ONNX Runtime not loadable: "@ + e),
            },
        ],
    }
}

/// The section on inference.
pub fn check_inference(provider: &Option<ExecutionProvider>) -> (r: Vec<String>)
    ensures
        crate::text::texts(r@) == inference_section(
            match *provider {
                Some(p) => Some(p@),
                None => None,
            },
        ),
{
    match provider {
        None => no_lines(),
        Some(p) => {
            let name = p.configured.as_str();
            let label = if same(name, "cpu") {
                "CPU"
            } else if same(name, "cuda") {
                "CUDA (NVIDIA GPU)"
            } else if same(name, "rocm") {
                "ROCm (AMD GPU)"
            } else if same(name, "openvino") {
                "OpenVINO (Intel)"
            } else {
                name
            };
            let line = match &p.status {
                EpStatus::Available => finding_line(
                    true,
                    "supported by the installed ONNX Runtime",
                ),
                EpStatus::NotBuiltIn => finding_line(
                    false,
                    "not built into the installed ONNX Runtime — inference will fall back to CPU",
                ),
                EpStatus::UnknownName => finding_line(
                    false,
                    "unknown execution provider (valid: cpu, cuda, rocm, openvino)",
                ),
                EpStatus::Unqueryable(e) => finding_line(
                    false,
                    joined_texts("ONNX Runtime not loadable: ", e.as_str()).as_str(),
                ),
            };
            pair(item_line("Execution provider", label), line)
        },
    }
}

// ---------------------------------------------------------------------------
// Encryption and enrollment
// ---------------------------------------------------------------------------

/// How templates are encrypted, and what there is of it on disk.
#[derive(Debug)]
pub struct EncryptionFacts {
    pub method: EncryptionMethod,
    pub key_path: String,
    pub key_exists: bool,
    pub sealed_key_path: String,
    pub sealed_key_exists: bool,
    pub tcti: String,
    pub tpm_device_exists: bool,
    /// How many stored templates are encrypted, and how many are not, where the
    /// store could be read.
    pub counts: Option<(u64, u64)>,
}

/// The path of the TPM device that a TCTI string names.
pub open spec fn tpm_device(tcti: Seq<char>) -> Seq<char> {
    if crate::text::has_prefix(tcti, "device:"@) {
        tcti.skip("device:"@.len() as int)
    } else {
        tcti
    }
}

/// The path of the TPM device that a TCTI string names.
pub fn tpm_device_path(tcti: &str) -> (r: String)
    ensures
        r@ == tpm_device(tcti@),
{
    match strip_prefix(tcti, "device:") {
        Some(rest) => rest,
        None => String::from_str(tcti),
    }
}

/// A method's name for people.
pub open spec fn method_label(method: EncryptionMethod) -> Seq<char> {
    match method {
        EncryptionMethod::Tpm => "AES-256-GCM (TPM-sealed key)"@,
        EncryptionMethod::Keyfile => "AES-256-GCM (keyfile)"@,
        EncryptionMethod::Plaintext => "none"@,
    }
}

/// The finding on the key.
pub open spec fn key_finding(facts: EncryptionFacts) -> Seq<char> {
    match facts.method {
        EncryptionMethod::Tpm => if !facts.sealed_key_exists {
            finding(false, "sealed key missing: "@ + facts.sealed_key_path@)
        } else if !facts.tpm_device_exists {
            finding(false, "TPM device missing: "@ + tpm_device(facts.tcti@))
        } else {
            finding(true, "sealed key: "@ + facts.sealed_key_path@)
        },
        EncryptionMethod::Keyfile => if facts.key_exists {
            finding(true, "key file: "@ + facts.key_path@)
        } else {
            finding(false, "key file missing: "@ + facts.key_path@)
        },
        EncryptionMethod::Plaintext => finding(
            false,
            "embeddings stored as plaintext (run 'facelock setup' to enable encryption)"@,
        ),
    }
}

/// The details on the stored templates, where there are any.
pub open spec fn count_details(counts: Option<(u64, u64)>) -> Seq<Seq<char>> {
    match counts {
        Some((sealed, unsealed)) if sealed + unsealed > 0 => seq![
            detail("encrypted"@, crate::text::decimal(sealed as nat)),
            detail("plaintext"@, crate::text::decimal(unsealed as nat)),
        ],
        _ => Seq::empty(),
    }
}

/// The section on encryption. Without a configuration there is none.
pub open spec fn encryption_section(facts: Option<EncryptionFacts>) -> Seq<Seq<char>> {
    match facts {
        None => Seq::empty(),
        Some(f) => seq![item("Encryption"@, method_label(f.method)), key_finding(f)]
            + count_details(f.counts),
    }
}

fn key_finding_line(facts: &EncryptionFacts) -> (r: String)
    ensures
        r@ == key_finding(*facts),
{
    match facts.method {
        EncryptionMethod::Tpm => {
            let device = tpm_device_path(facts.tcti.as_str());
            if facts.sealed_key_exists && facts.tpm_device_exists {
                finding_line(
                    true,
                    joined_texts("sealed key: ", facts.sealed_key_path.as_str()).as_str(),
                )
            } else if !facts.sealed_key_exists {
                finding_line(
                    false,
                    joined_texts("sealed key missing: ", facts.sealed_key_path.as_str()).as_str(),
                )
            } else {
                finding_line(
                    false,
                    joined_texts("TPM device missing: ", device.as_str()).as_str(),
                )
            }
        },
        EncryptionMethod::Keyfile => if facts.key_exists {
            finding_line(true, joined_texts("key file: ", facts.key_path.as_str()).as_str())
        } else {
            finding_line(
                false,
                joined_texts("key file missing: ", facts.key_path.as_str()).as_str(),
            )
        },
        EncryptionMethod::Plaintext => finding_line(
            false,
            "embeddings stored as plaintext (run 'facelock setup' to enable encryption)",
        ),
    }
}

/// The section on encryption.
pub fn check_encryption(facts: &Option<EncryptionFacts>) -> (r: Vec<String>)
    ensures
        crate::text::texts(r@) == encryption_section(*facts),
{
    match facts {
        None => no_lines(),
        Some(f) => {
            let label = match f.method {
                EncryptionMethod::Tpm => "AES-256-GCM (TPM-sealed key)",
                EncryptionMethod::Keyfile => "AES-256-GCM (keyfile)",
                EncryptionMethod::Plaintext => "none",
            };
            let mut lines = pair(item_line("Encryption", label), key_finding_line(f));
            let ghost top = crate::text::texts(lines@);
            if let Some((sealed, unsealed)) = f.counts {
                if sealed > 0 || unsealed > 0 {
                    lines.push(detail_line("encrypted", decimal_of(sealed).as_str()));
                    lines.push(detail_line("plaintext", decimal_of(unsealed).as_str()));
                }
            }
            assert(crate::text::texts(lines@) =~= top + count_details(f.counts));
            lines
        },
    }
}

/// What the store says of a user.
#[derive(Debug)]
pub enum EnrolledModels {
    /// The store could not be opened.
    Inaccessible,
    /// It could not be read.
    Unreadable { error: String },
    /// The user's models: number and label of each.
    Listed(Vec<ModelRow>),
}

/// The number and the label of a model.
#[derive(Debug, Clone)]
pub struct ModelRow {
    pub id: u32,
    pub label: String,
}

/// The detail of a model.
pub open spec fn model_row(row: ModelRow) -> Seq<char> {
    detail("#"@ + crate::text::decimal(row.id as nat), row.label@)
}

/// The section on the enrolled faces of a user.
pub open spec fn enrolled_section(user: Seq<char>, models: EnrolledModels) -> Seq<Seq<char>> {
    seq![item("Enrolled faces"@, user)] + match models {
        EnrolledModels::Inaccessible => seq![
            detail("database"@, "not accessible (may need root)"@),
        ],
        EnrolledModels::Unreadable { error } => seq![
            finding(false, "error reading models: "@ + error@),
        ],
        EnrolledModels::Listed(rows) => if rows@.len() == 0 {
            seq![finding(false, "no faces enrolled (run 'facelock enroll')"@)]
        } else {
            seq![finding(true, crate::text::decimal(rows@.len()) + " model(s)"@)]
                + rows@.map_values(|row: ModelRow| model_row(row))
        },
    }
}

/// The section on the enrolled faces. Without a configuration there is none.
pub open spec fn enrolled_sections(enrolled: Option<(String, EnrolledModels)>) -> Seq<Seq<char>> {
    match enrolled {
        None => Seq::empty(),
        Some((user, models)) => enrolled_section(user@, models),
    }
}

/// The section on the enrolled faces of a user.
pub fn check_enrolled(enrolled: &Option<(String, EnrolledModels)>) -> (r: Vec<String>)
    ensures
        crate::text::texts(r@) == enrolled_sections(*enrolled),
{
    let (user, models) = match enrolled {
        None => {
            return no_lines();
        },
        Some((user, models)) => (user, models),
    };
    let mut lines: Vec<String> = Vec::new();
    lines.push(item_line("Enrolled faces", user.as_str()));
    match models {
        EnrolledModels::Inaccessible => {
            lines.push(detail_line("database", "not accessible (may need root)"));
        },
        EnrolledModels::Unreadable { error } => {
            lines.push(
                finding_line(false, joined_texts("error reading models: ", error.as_str()).as_str()),
            );
        },
        EnrolledModels::Listed(rows) => {
            if rows.len() == 0 {
                lines.push(finding_line(false, "no faces enrolled (run 'facelock enroll')"));
            } else {
                let mut count = decimal_of(rows.len() as u64);
                count.append(" model(s)");
                lines.push(finding_line(true, count.as_str()));
                let ghost top = crate::text::texts(lines@);
                let mut i: usize = 0;
                assert(top =~= top + rows@.take(0).map_values(|row: ModelRow| model_row(row)));
                while i < rows.len()
                    invariant
                        i <= rows.len(),
                        crate::text::texts(lines@) == top + rows@.take(i as int).map_values(
                            |row: ModelRow| model_row(row),
                        ),
                    decreases rows.len() - i,
                {
                    let ghost before = crate::text::texts(lines@);
                    let key = joined_texts("#", decimal_of(rows[i].id as u64).as_str());
                    lines.push(detail_line(key.as_str(), rows[i].label.as_str()));
                    assert(crate::text::texts(lines@) =~= before.push(model_row(rows[i as int])));
                    i += 1;
                    assert(crate::text::texts(lines@) =~= top + rows@.take(i as int).map_values(
                        |row: ModelRow| model_row(row),
                    ));
                }
                assert(rows@.take(rows.len() as int) =~= rows@);
            }
        },
    }
    assert(crate::text::texts(lines@) =~= enrolled_section(user@, *models));
    lines
}

// ---------------------------------------------------------------------------
// Security, notifications and PAM
// ---------------------------------------------------------------------------

/// The security settings that the report names.
#[derive(Debug, Clone, Copy)]
pub struct SecurityFacts {
    pub disabled: bool,
    pub require_ir: bool,
    pub require_frame_variance: bool,
    pub require_landmark_liveness: bool,
    pub min_auth_frames: u32,
}

/// The section on security. Without a configuration there is none.
pub open spec fn security_section(facts: Option<SecurityFacts>) -> Seq<Seq<char>> {
    match facts {
        None => Seq::empty(),
        Some(f) => if f.disabled {
            seq![item("Security"@, ""@), finding(false, "ALL SECURITY CHECKS DISABLED"@)]
        } else {
            seq![
                item("Security"@, ""@),
                detail("require_ir"@, crate::text::yes_no(f.require_ir)),
                detail("liveness (frame variance)"@, crate::text::yes_no(f.require_frame_variance)),
                detail("liveness (landmark movement)"@, crate::text::yes_no(f.require_landmark_liveness)),
                detail("min_auth_frames"@, crate::text::decimal(f.min_auth_frames as nat)),
            ]
        },
    }
}

/// The section on security.
pub fn check_security(facts: &Option<SecurityFacts>) -> (r: Vec<String>)
    ensures
        crate::text::texts(r@) == security_section(*facts),
{
    match facts {
        None => no_lines(),
        Some(f) => {
            if f.disabled {
                return pair(
                    item_line("Security", ""),
                    finding_line(false, "ALL SECURITY CHECKS DISABLED"),
                );
            }
            let mut lines: Vec<String> = Vec::new();
            lines.push(item_line("Security", ""));
            lines.push(detail_line("require_ir", yes_or_no(f.require_ir)));
            lines.push(
                detail_line("liveness (frame variance)", yes_or_no(f.require_frame_variance)),
            );
            lines.push(
                detail_line("liveness (landmark movement)", yes_or_no(f.require_landmark_liveness)),
            );
            lines.push(
                detail_line("min_auth_frames", decimal_of(f.min_auth_frames as u64).as_str()),
            );
            assert(crate::text::texts(lines@) =~= security_section(Some(*f)));
            lines
        },
    }
}

/// Where notifications go.
#[derive(Debug, Clone, Copy, PartialEq, Eq, Structural)]
pub enum NotificationMode {
    Off,
    Terminal,
    Desktop,
    Both,
}

/// The notification settings that the report names.
#[derive(Debug, Clone, Copy)]
pub struct NotificationFacts {
    pub mode: NotificationMode,
    pub notify_prompt: bool,
    pub notify_on_success: bool,
    pub notify_on_failure: bool,
}

/// A mode's name for people.
pub open spec fn mode_label(mode: NotificationMode) -> Seq<char> {
    match mode {
        NotificationMode::Off => "off"@,
        NotificationMode::Terminal => "terminal"@,
        NotificationMode::Desktop => "desktop"@,
        NotificationMode::Both => "terminal + desktop"@,
    }
}

/// The section on notifications. Without a configuration there is none.
pub open spec fn notifications_section(facts: Option<NotificationFacts>) -> Seq<Seq<char>> {
    match facts {
        None => Seq::empty(),
        Some(f) => seq![item("Notifications"@, mode_label(f.mode))] + (if f.mode
            == NotificationMode::Off {
            Seq::empty()
        } else {
            seq![
                detail("prompt"@, crate::text::yes_no(f.notify_prompt)),
                detail("on success"@, crate::text::yes_no(f.notify_on_success)),
                detail("on failure"@, crate::text::yes_no(f.notify_on_failure)),
            ]
        }),
    }
}

/// The section on notifications.
pub fn check_notifications(facts: &Option<NotificationFacts>) -> (r: Vec<String>)
    ensures
        crate::text::texts(r@) == notifications_section(*facts),
{
    match facts {
        None => no_lines(),
        Some(f) => {
            let label = match f.mode {
                NotificationMode::Off => "off",
                NotificationMode::Terminal => "terminal",
                NotificationMode::Desktop => "desktop",
                NotificationMode::Both => "terminal + desktop",
            };
            let mut lines: Vec<String> = Vec::new();
            lines.push(item_line("Notifications", label));
            if f.mode != NotificationMode::Off {
                lines.push(detail_line("prompt", yes_or_no(f.notify_prompt)));
                lines.push(detail_line("on success", yes_or_no(f.notify_on_success)));
                lines.push(detail_line("on failure", yes_or_no(f.notify_on_failure)));
            }
            assert(crate::text::texts(lines@) =~= notifications_section(Some(*f)));
            lines
        },
    }
}

/// Where the module is looked for first.
pub const PAM_MODULE: &'static str = "/lib/security/pam_facelock.so";

/// Where the module is looked for next.
pub const PAM_MODULE_ALT: &'static str = "/usr/lib/security/pam_facelock.so";

/// The section on the PAM module. `sudo_file` holds the service file of `sudo`,
/// where it could be read.
pub open spec fn pam_section(there: bool, alt_there: bool, sudo_file: Option<Seq<char>>) -> Seq<
    Seq<char>,
> {
    seq![
        item("PAM module"@, PAM_MODULE@),
        if there {
            finding(true, "installed"@)
        } else if alt_there {
            finding(true, "installed at "@ + PAM_MODULE_ALT@)
        } else {
            finding(false, "not installed"@)
        },
    ] + match sudo_file {
        Some(content) => seq![
            detail(
                "sudo PAM"@,
                if crate::text::contains(content, "pam_facelock"@) {
                    "configured"@
                } else {
                    "not configured for facelock"@
                },
            ),
        ],
        None => Seq::empty(),
    }
}

/// The section on the PAM module.
pub fn check_pam(there: bool, alt_there: bool, sudo_file: &Option<String>) -> (r: Vec<String>)
    ensures
        crate::text::texts(r@) == pam_section(
            there,
            alt_there,
            crate::text::opt_text(*sudo_file),
        ),
{
    let line = if there {
        finding_line(true, "installed")
    } else if alt_there {
        finding_line(true, joined_texts("installed at ", PAM_MODULE_ALT).as_str())
    } else {
        finding_line(false, "not installed")
    };
    let mut lines = pair(item_line("PAM module", PAM_MODULE), line);
    if let Some(content) = sudo_file {
        let state = if holds(content.as_str(), "pam_facelock") {
            "configured"
        } else {
            "not configured for facelock"
        };
        lines.push(detail_line("sudo PAM", state));
    }
    assert(crate::text::texts(lines@) =~= pam_section(
        there,
        alt_there,
        crate::text::opt_text(*sudo_file),
    ));
    lines
}

// ---------------------------------------------------------------------------
// The whole report
// ---------------------------------------------------------------------------

/// What was found. What depends on the configuration is missing where there is
/// none.
#[derive(Debug)]
pub struct StatusFacts {
    pub config_path: String,
    pub config: ConfigOutcome,
    pub daemon: Option<DaemonState>,
    pub camera: Option<CameraPresence>,
    pub models: Option<ModelFiles>,
    pub provider: Option<ExecutionProvider>,
    pub encryption: Option<EncryptionFacts>,
    pub enrolled: Option<(String, EnrolledModels)>,
    pub security: Option<SecurityFacts>,
    pub notifications: Option<NotificationFacts>,
    pub module_there: bool,
    pub module_alt_there: bool,
    pub sudo_file: Option<String>,
}

/// The whole report, line by line. A broken configuration is a finding, and the
/// report goes on.
pub open spec fn report(facts: StatusFacts) -> Seq<Seq<char>> {
    seq!["facelock system status\n"@] + config_section(facts.config_path@, facts.config@)
        + daemon_section(
        match facts.daemon {
            Some(s) => Some(s@),
            None => None,
        },
    ) + camera_section(
        match facts.camera {
            Some(c) => Some(c@),
            None => None,
        },
    ) + models_section(
        match facts.models {
            Some(m) => Some(m@),
            None => None,
        },
    ) + inference_section(
        match facts.provider {
            Some(p) => Some(p@),
            None => None,
        },
    ) + encryption_section(facts.encryption) + enrolled_sections(facts.enrolled)
        + security_section(facts.security) + notifications_section(facts.notifications)
        + pam_section(
        facts.module_there,
        facts.module_alt_there,
        crate::text::opt_text(facts.sudo_file),
    )
}

fn extended(lines: Vec<String>, section: Vec<String>) -> (r: Vec<String>)
    ensures
        crate::text::texts(r@) == crate::text::texts(lines@) + crate::text::texts(section@),
{
    let ghost before = crate::text::texts(lines@);
    let ghost added = crate::text::texts(section@);
    let mut lines = lines;
    let mut section = section;
    lines.append(&mut section);
    assert(crate::text::texts(lines@) =~= before + added);
    lines
}

/// The whole report, line by line.
pub fn status_report(facts: &StatusFacts) -> (r: Vec<String>)
    ensures
        crate::text::texts(r@) == report(*facts),
{
    let mut lines: Vec<String> = Vec::new();
    lines.push(String::from_str("facelock system status\n"));
    assert(crate::text::texts(lines@) =~= seq!["facelock system status\n"@]);
    let lines = extended(lines, check_config(facts.config_path.as_str(), &facts.config));
    let lines = extended(lines, check_daemon(&facts.daemon));
    let lines = extended(lines, check_camera(&facts.camera));
    let lines = extended(lines, check_models(&facts.models));
    let lines = extended(lines, check_inference(&facts.provider));
    let lines = extended(lines, check_encryption(&facts.encryption));
    let lines = extended(lines, check_enrolled(&facts.enrolled));
    let lines = extended(lines, check_security(&facts.security));
    let lines = extended(lines, check_notifications(&facts.notifications));
    extended(
        lines,
        check_pam(facts.module_there, facts.module_alt_there, &facts.sudo_file),
    )
}

// ---------------------------------------------------------------------------
// Laws
// ---------------------------------------------------------------------------

/// Whether a line is a good finding.
pub open spec fn is_good(line: Seq<char>) -> bool {
    crate::text::has_prefix(line, "    [ok] "@)
}

/// Whether a line is a bad finding.
pub open spec fn is_bad(line: Seq<char>) -> bool {
    crate::text::has_prefix(line, "    [!!] "@)
}

/// A good finding is marked as one and a bad one as one, no line is both, and the
/// message stands behind the mark.
pub proof fn law_findings_are_marked(good: bool, message: Seq<char>)
    ensures
        is_good(finding(good, message)) == good,
        is_bad(finding(good, message)) == !good,
        finding(good, message).skip(9) == message,
        forall|line: Seq<char>| !(#[trigger] is_good(line) && is_bad(line)),
{
    let line = finding(good, message);
    reveal_strlit("    ");
    reveal_strlit("[ok]");
    reveal_strlit("[!!]");
    reveal_strlit(" ");
    reveal_strlit("    [ok] ");
    reveal_strlit("    [!!] ");
    assert(line.take(9)[5] == line[5]);
    assert("    [ok] "@[5] == 'o' && "    [!!] "@[5] == '!');
    if good {
        assert(line.take(9) =~= "    [ok] "@);
    } else {
        assert(line.take(9) =~= "    [!!] "@);
    }
    assert(line.skip(9) =~= message);
    assert forall|l: Seq<char>| !(#[trigger] is_good(l) && is_bad(l)) by {
        if is_good(l) && is_bad(l) {
            assert(l.take(9)[5] == 'o');
            assert(l.take(9)[5] == '!');
        }
    }
}

/// The section on the configuration names its path, and is good exactly if the
/// configuration is valid; the camera's path is then the configured one.
pub proof fn law_a_valid_configuration_is_good(
    path: Seq<char>,
    outcome: ConfigOutcome<Seq<char>>,
)
    requires
        path.len() > 0,
    ensures
        ({
            let lines = config_section(path, outcome);
            &&& lines[0] == "  Config file: "@ + path
            &&& is_good(lines[1]) <==> outcome is Valid
            &&& is_bad(lines[1]) <==> !(outcome is Valid)
            &&& (outcome matches ConfigOutcome::Valid { device_path: Some(p) }) ==> lines[2]
                == detail("device.path"@, outcome->device_path->0)
            &&& outcome matches ConfigOutcome::Invalid { error } ==> crate::text::has_suffix(
                lines[1],
                error,
            )
        }),
{
    reveal_strlit("  Config file: ");
    reveal_strlit("  ");
    reveal_strlit(": ");
    reveal_strlit("Config file");
    assert("  "@ + "Config file"@ + ": "@ =~= "  Config file: "@);
    law_findings_are_marked(true, "valid"@);
    law_findings_are_marked(false, "not found"@);
    if let ConfigOutcome::Invalid { error } = outcome {
        let message = "invalid: "@ + error;
        let line = finding(false, message);
        law_findings_are_marked(false, message);
        assert(line.skip(line.len() - error.len()) =~= error);
    }
}

/// The daemon is bad news exactly if it does not respond, or nothing is known of
/// how it should be reached.
pub proof fn law_a_daemon_that_answers_is_good(state: Option<DaemonState<Seq<char>>>)
    ensures
        daemon_section(state).len() == 2,
        is_good(daemon_section(state)[1]) <==> (state matches Some(s) && !(s is Silent)),
        is_bad(daemon_section(state)[1]) <==> !(state matches Some(s) && !(s is Silent)),
        (state matches Some(DaemonState::Silent { error })) ==> crate::text::has_suffix(
            daemon_section(state)[1],
            state->0->Silent_error,
        ),
{
    law_findings_are_marked(false, "config not loaded, cannot check daemon"@);
    law_findings_are_marked(true, "oneshot mode (no daemon)"@);
    law_findings_are_marked(true, "responding"@);
    law_findings_are_marked(true, "connected (unexpected response)"@);
    if let Some(DaemonState::Silent { error }) = state {
        let line = finding(false, "not responding: "@ + error);
        law_findings_are_marked(false, "not responding: "@ + error);
        assert(line.skip(line.len() - error.len()) =~= error);
    }
}

/// The camera is good exactly if it is detected by itself or is there, and the
/// heading names the configured one.
pub proof fn law_a_camera_that_is_there_is_good(camera: Option<CameraPresence<Seq<char>>>)
    ensures
        camera_section(camera).len() == 2,
        is_good(camera_section(camera)[1]) <==> (camera matches Some(c) && (c matches
            CameraPresence::Configured { present, .. } ==> present)),
        (camera matches Some(CameraPresence::Configured { path, .. })) ==> camera_section(camera)[0]
            == item("Camera device"@, camera->0->path),
{
    law_findings_are_marked(false, "config not available"@);
    law_findings_are_marked(true, "device exists"@);
    law_findings_are_marked(false, "device not found"@);
    law_findings_are_marked(true, "auto-detect enabled"@);
}

/// The models are good exactly if their directory and both files are there, and each
/// file is told of by its own name and its own presence.
pub proof fn law_models_are_good_only_together(m: ModelFiles<Seq<char>>)
    ensures
        is_good(models_section(Some(m)).last()) <==> m.dir_present && m.detector.present
            && m.embedder.present,
        is_bad(models_section(Some(m)).last()) <==> !(m.dir_present && m.detector.present
            && m.embedder.present),
        is_bad(models_section(None).last()),
        models_section(Some(m))[0] == item("Model directory"@, m.dir),
        m.dir_present ==> {
            &&& models_section(Some(m)).len() == 4
            &&& models_section(Some(m))[1] == detail(
                "detector ("@ + crate::paths::file_name(m.detector.path) + ")"@,
                if m.detector.present {
                    "present"@
                } else {
                    "MISSING"@
                },
            )
            &&& models_section(Some(m))[2] == detail(
                "embedder ("@ + crate::paths::file_name(m.embedder.path) + ")"@,
                if m.embedder.present {
                    "present"@
                } else {
                    "MISSING"@
                },
            )
        },
{
    law_findings_are_marked(false, "config not available"@);
    law_findings_are_marked(false, "directory not found"@);
    law_findings_are_marked(true, "all configured models present"@);
    law_findings_are_marked(false, "some models missing (run 'facelock setup')"@);
    reveal_strlit(" (");
    reveal_strlit("detector");
    reveal_strlit("embedder");
    reveal_strlit("detector (");
    reveal_strlit("embedder (");
    assert("detector"@ + " ("@ =~= "detector ("@);
    assert("embedder"@ + " ("@ =~= "embedder ("@);
}

/// A provider is good exactly if the installed runtime has it, and one without a
/// name for people goes by its own.
pub proof fn law_a_provider_that_is_there_is_good(p: ExecutionProvider<Seq<char>>)
    ensures
        is_good(inference_section(Some(p))[1]) <==> p.status is Available,
        is_bad(inference_section(Some(p))[1]) <==> !(p.status is Available),
        inference_section(None).len() == 0,
        provider_label("cpu"@) == "CPU"@,
        provider_label("cuda"@) == "CUDA (NVIDIA GPU)"@,
        provider_label("rocm"@) == "ROCm (AMD GPU)"@,
        provider_label("openvino"@) == "OpenVINO (Intel)"@,
        p.configured != "cpu"@ && p.configured != "cuda"@ && p.configured != "rocm"@
            && p.configured != "openvino"@ ==> provider_label(p.configured) == p.configured,
{
    law_findings_are_marked(true, "supported by the installed ONNX Runtime"@);
    law_findings_are_marked(
        false,
        "not built into the installed ONNX Runtime — inference will fall back to CPU"@,
    );
    law_findings_are_marked(
        false,
        "unknown execution provider (valid: cpu, cuda, rocm, openvino)"@,
    );
    if let EpStatus::Unqueryable(e) = p.status {
        law_findings_are_marked(false, "ONNX Runtime not loadable: "@ + e);
    }
    reveal_strlit("cpu");
    reveal_strlit("cuda");
    reveal_strlit("rocm");
    reveal_strlit("openvino");
    assert("cpu"@.len() == 3 && "cuda"@.len() == 4 && "rocm"@.len() == 4 && "openvino"@.len() == 8);
    assert("cuda"@[0] == 'c' && "rocm"@[0] == 'r');
}

/// The key is good exactly if all that the method needs is there: the key file, or
/// the sealed key and the TPM. Plain text never is.
pub proof fn law_a_key_is_good_only_if_it_can_be_used(facts: EncryptionFacts)
    ensures
        is_good(key_finding(facts)) <==> match facts.method {
            EncryptionMethod::Keyfile => facts.key_exists,
            EncryptionMethod::Tpm => facts.sealed_key_exists && facts.tpm_device_exists,
            EncryptionMethod::Plaintext => false,
        },
        is_bad(key_finding(facts)) <==> !is_good(key_finding(facts)),
        facts.method is Keyfile ==> crate::text::has_suffix(key_finding(facts), facts.key_path@),
        facts.method is Tpm && (facts.tpm_device_exists || !facts.sealed_key_exists)
            ==> crate::text::has_suffix(key_finding(facts), facts.sealed_key_path@),
        encryption_section(Some(facts)).len() >= 2,
        encryption_section(Some(facts))[1] == key_finding(facts),
        encryption_section(None).len() == 0,
{
    let sealed = facts.sealed_key_path@;
    let key = facts.key_path@;
    law_findings_are_marked(false, "sealed key missing: "@ + sealed);
    law_findings_are_marked(false, "TPM device missing: "@ + tpm_device(facts.tcti@));
    law_findings_are_marked(true, "sealed key: "@ + sealed);
    law_findings_are_marked(true, "key file: "@ + key);
    law_findings_are_marked(false, "key file missing: "@ + key);
    law_findings_are_marked(
        false,
        "embeddings stored as plaintext (run 'facelock setup' to enable encryption)"@,
    );
    let line = key_finding(facts);
    if facts.method is Keyfile {
        assert(line.skip(line.len() - key.len()) =~= key);
    }
    if facts.method is Tpm && (facts.tpm_device_exists || !facts.sealed_key_exists) {
        assert(line.skip(line.len() - sealed.len()) =~= sealed);
    }
}

/// The stored templates are counted, encrypted ones first, exactly where there are
/// some.
pub proof fn law_templates_are_counted_where_there_are_some(counts: Option<(u64, u64)>)
    ensures
        count_details(counts).len() == 2 <==> (counts matches Some((sealed, unsealed)) && (sealed > 0
            || unsealed > 0)),
        count_details(counts).len() == 0 <==> !(counts matches Some((sealed, unsealed)) && (sealed
            > 0 || unsealed > 0)),
        counts matches Some((sealed, unsealed)) ==> (count_details(counts).len() == 2
            ==> count_details(counts)[0] == detail(
            "encrypted"@,
            crate::text::decimal(sealed as nat),
        ) && count_details(counts)[1] == detail(
            "plaintext"@,
            crate::text::decimal(unsealed as nat),
        )),
{
}

/// The device that a TCTI string names is what stands behind its scheme, and the
/// whole string where it has none.
pub proof fn law_the_device_stands_behind_the_scheme(path: Seq<char>, tcti: Seq<char>)
    ensures
        tpm_device("device:"@ + path) == path,
        !crate::text::has_prefix(tcti, "device:"@) ==> tpm_device(tcti) == tcti,
{
    reveal_strlit("device:");
    let whole = "device:"@ + path;
    assert(whole.take("device:"@.len() as int) =~= "device:"@);
    assert(whole.skip("device:"@.len() as int) =~= path);
}

/// The faces of a user are good exactly if there are some; every one is told of, in
/// order, by its number and its label; and their count is how many there are.
pub proof fn law_every_enrolled_face_is_told_of(user: Seq<char>, models: EnrolledModels)
    ensures
        enrolled_section(user, models)[0] == item("Enrolled faces"@, user),
        is_good(enrolled_section(user, models)[1]) <==> (models matches EnrolledModels::Listed(rows)
            && rows.len() > 0),
        models matches EnrolledModels::Listed(rows) ==> {
            let lines = enrolled_section(user, models);
            &&& lines.len() == rows.len() + 2
            &&& rows.len() > 0 ==> lines[1].skip(9) == crate::text::decimal(rows@.len())
                + " model(s)"@
            &&& forall|i: int|
                0 <= i < rows.len() ==> #[trigger] lines[i + 2] == "    - "@ + ("#"@
                    + crate::text::decimal(rows[i].id as nat)) + ": "@ + rows[i].label@
        },
{
    reveal_strlit("    - ");
    reveal_strlit("    [ok] ");
    law_findings_are_marked(false, "no faces enrolled (run 'facelock enroll')"@);
    if let EnrolledModels::Unreadable { error } = models {
        law_findings_are_marked(false, "error reading models: "@ + error@);
    }
    if let EnrolledModels::Inaccessible = models {
        let line = detail("database"@, "not accessible (may need root)"@);
        assert(line[4] == "    - "@[4]);
        assert("    [ok] "@[4] == '[');
        if is_good(line) {
            assert(line.take(9)[4] == line[4]);
        }
    }
    if let EnrolledModels::Listed(rows) = models {
        law_findings_are_marked(true, crate::text::decimal(rows@.len()) + " model(s)"@);
        let lines = enrolled_section(user, models);
        if rows.len() > 0 {
            assert forall|i: int| 0 <= i < rows.len() implies #[trigger] lines[i + 2] == "    - "@ + (
            "#"@ + crate::text::decimal(rows[i].id as nat)) + ": "@ + rows[i].label@ by {
                assert(lines[i + 2] == model_row(rows[i]));
            }
        }
    }
}

/// Switched-off security is one bad finding and nothing else; otherwise every
/// setting is told as it is.
pub proof fn law_disabled_security_is_bad(f: SecurityFacts)
    ensures
        security_section(None).len() == 0,
        f.disabled <==> is_bad(security_section(Some(f))[1]),
        f.disabled ==> security_section(Some(f)).len() == 2,
        !f.disabled ==> security_section(Some(f)) == seq![
            item("Security"@, ""@),
            detail("require_ir"@, crate::text::yes_no(f.require_ir)),
            detail(
                "liveness (frame variance)"@,
                crate::text::yes_no(f.require_frame_variance),
            ),
            detail(
                "liveness (landmark movement)"@,
                crate::text::yes_no(f.require_landmark_liveness),
            ),
            detail("min_auth_frames"@, crate::text::decimal(f.min_auth_frames as nat)),
        ],
        crate::text::yes_no(true) == "yes"@,
        crate::text::yes_no(false) == "no"@,
{
    law_findings_are_marked(false, "ALL SECURITY CHECKS DISABLED"@);
    reveal_strlit("    - ");
    reveal_strlit("    [!!] ");
    if !f.disabled {
        let line = security_section(Some(f))[1];
        assert(line[4] == "    - "@[4]);
        assert("    [!!] "@[4] == '[');
        if is_bad(line) {
            assert(line.take(9)[4] == line[4]);
        }
    }
}

/// Notifications that are off have no details; otherwise each occasion is told with
/// its own setting.
pub proof fn law_notifications_are_told_unless_off(f: NotificationFacts)
    ensures
        notifications_section(None).len() == 0,
        notifications_section(Some(f)).len() == 1 <==> f.mode is Off,
        notifications_section(Some(f))[0] == item("Notifications"@, mode_label(f.mode)),
        !(f.mode is Off) ==> notifications_section(Some(f)).skip(1) == seq![
            detail("prompt"@, crate::text::yes_no(f.notify_prompt)),
            detail("on success"@, crate::text::yes_no(f.notify_on_success)),
            detail("on failure"@, crate::text::yes_no(f.notify_on_failure)),
        ],
        mode_label(NotificationMode::Off) == "off"@,
        mode_label(NotificationMode::Terminal) == "terminal"@,
        mode_label(NotificationMode::Desktop) == "desktop"@,
        mode_label(NotificationMode::Both) == "terminal + desktop"@,
{
    if !(f.mode is Off) {
        assert(notifications_section(Some(f)).skip(1) =~= seq![
            detail("prompt"@, crate::text::yes_no(f.notify_prompt)),
            detail("on success"@, crate::text::yes_no(f.notify_on_success)),
            detail("on failure"@, crate::text::yes_no(f.notify_on_failure)),
        ]);
    }
}

/// The module is good exactly if it is in one of its two places, and `sudo` is told
/// of exactly where its service file could be read: as configured exactly if that
/// file names the module.
pub proof fn law_an_installed_module_is_good(
    there: bool,
    alt_there: bool,
    sudo_file: Option<Seq<char>>,
)
    ensures
        ({
            let lines = pam_section(there, alt_there, sudo_file);
            &&& is_good(lines[1]) <==> there || alt_there
            &&& is_bad(lines[1]) <==> !there && !alt_there
            &&& !there && alt_there ==> crate::text::has_suffix(
                lines[1],
                "/usr/lib/security/pam_facelock.so"@,
            )
            &&& sudo_file is None <==> lines.len() == 2
            &&& sudo_file matches Some(content) ==> (lines[2] == detail("sudo PAM"@, "configured"@)
                <==> crate::text::contains(content, "pam_facelock"@))
        }),
{
    law_findings_are_marked(true, "installed"@);
    law_findings_are_marked(true, "installed at "@ + PAM_MODULE_ALT@);
    law_findings_are_marked(false, "not installed"@);
    let line = finding(true, "installed at "@ + PAM_MODULE_ALT@);
    assert(line.skip(line.len() - PAM_MODULE_ALT@.len()) =~= PAM_MODULE_ALT@);
    reveal_strlit("configured");
    reveal_strlit("not configured for facelock");
    let yes = detail("sudo PAM"@, "configured"@);
    let no = detail("sudo PAM"@, "not configured for facelock"@);
    assert(yes.len() != no.len());
}

/// Every section is in the report, whole, and the sections stand in one order: the
/// configuration first, the module last.
pub proof fn law_every_section_is_reported(facts: StatusFacts)
    ensures
        ({
            let daemon = match facts.daemon {
                Some(s) => Some(s@),
                None => None,
            };
            let camera = match facts.camera {
                Some(c) => Some(c@),
                None => None,
            };
            let models = match facts.models {
                Some(m) => Some(m@),
                None => None,
            };
            let provider = match facts.provider {
                Some(p) => Some(p@),
                None => None,
            };
            let sudo_file = crate::text::opt_text(facts.sudo_file);
            let sections = seq![
                seq!["facelock system status\n"@],
                config_section(facts.config_path@, facts.config@),
                daemon_section(daemon),
                camera_section(camera),
                models_section(models),
                inference_section(provider),
                encryption_section(facts.encryption),
                enrolled_sections(facts.enrolled),
                security_section(facts.security),
                notifications_section(facts.notifications),
                pam_section(facts.module_there, facts.module_alt_there, sudo_file),
            ];
            report(facts) == sections.flatten()
        }),
        facts.enrolled matches Some((user, models)) ==> enrolled_sections(facts.enrolled)
            == enrolled_section(user@, models),
        facts.enrolled is None ==> enrolled_sections(facts.enrolled).len() == 0,
{
    let s0 = seq!["facelock system status\n"@];
    let s1 = config_section(facts.config_path@, facts.config@);
    let s2 = daemon_section(
        match facts.daemon {
            Some(s) => Some(s@),
            None => None,
        },
    );
    let s3 = camera_section(
        match facts.camera {
            Some(c) => Some(c@),
            None => None,
        },
    );
    let s4 = models_section(
        match facts.models {
            Some(m) => Some(m@),
            None => None,
        },
    );
    let s5 = inference_section(
        match facts.provider {
            Some(p) => Some(p@),
            None => None,
        },
    );
    let s6 = encryption_section(facts.encryption);
    let s7 = enrolled_sections(facts.enrolled);
    let s8 = security_section(facts.security);
    let s9 = notifications_section(facts.notifications);
    let s10 = pam_section(
        facts.module_there,
        facts.module_alt_there,
        crate::text::opt_text(facts.sudo_file),
    );
    let all = seq![s0, s1, s2, s3, s4, s5, s6, s7, s8, s9, s10];
    lemma_flat(Seq::empty(), s0);
    lemma_flat(seq![s0], s1);
    lemma_flat(seq![s0, s1], s2);
    lemma_flat(seq![s0, s1, s2], s3);
    lemma_flat(seq![s0, s1, s2, s3], s4);
    lemma_flat(seq![s0, s1, s2, s3, s4], s5);
    lemma_flat(seq![s0, s1, s2, s3, s4, s5], s6);
    lemma_flat(seq![s0, s1, s2, s3, s4, s5, s6], s7);
    lemma_flat(seq![s0, s1, s2, s3, s4, s5, s6, s7], s8);
    lemma_flat(seq![s0, s1, s2, s3, s4, s5, s6, s7, s8], s9);
    lemma_flat(seq![s0, s1, s2, s3, s4, s5, s6, s7, s8, s9], s10);
    assert(Seq::empty().push(s0) =~= seq![s0]);
    assert(seq![s0].push(s1) =~= seq![s0, s1]);
    assert(seq![s0, s1].push(s2) =~= seq![s0, s1, s2]);
    assert(seq![s0, s1, s2].push(s3) =~= seq![s0, s1, s2, s3]);
    assert(seq![s0, s1, s2, s3].push(s4) =~= seq![s0, s1, s2, s3, s4]);
    assert(seq![s0, s1, s2, s3, s4].push(s5) =~= seq![s0, s1, s2, s3, s4, s5]);
    assert(seq![s0, s1, s2, s3, s4, s5].push(s6) =~= seq![s0, s1, s2, s3, s4, s5, s6]);
    assert(seq![s0, s1, s2, s3, s4, s5, s6].push(s7) =~= seq![s0, s1, s2, s3, s4, s5, s6, s7]);
    assert(seq![s0, s1, s2, s3, s4, s5, s6, s7].push(s8) =~= seq![
        s0,
        s1,
        s2,
        s3,
        s4,
        s5,
        s6,
        s7,
        s8,
    ]);
    assert(seq![s0, s1, s2, s3, s4, s5, s6, s7, s8].push(s9) =~= seq![
        s0,
        s1,
        s2,
        s3,
        s4,
        s5,
        s6,
        s7,
        s8,
        s9,
    ]);
    assert(seq![s0, s1, s2, s3, s4, s5, s6, s7, s8, s9].push(s10) =~= all);
    assert(Seq::<Seq<Seq<char>>>::empty().flatten() =~= Seq::<Seq<char>>::empty());
    assert(Seq::<Seq<Seq<char>>>::empty().flatten() + s0 =~= s0);
    assert(seq![s0].flatten() == s0);
    assert(seq![s0, s1, s2, s3].flatten() == s0 + s1 + s2 + s3);
    assert(all.flatten() == s0 + s1 + s2 + s3 + s4 + s5 + s6 + s7 + s8 + s9 + s10);
    assert(report(facts) == s0 + s1 + s2 + s3 + s4 + s5 + s6 + s7 + s8 + s9 + s10);
}

proof fn lemma_flat(sections: Seq<Seq<Seq<char>>>, last: Seq<Seq<char>>)
    ensures
        sections.push(last).flatten() == sections.flatten() + last,
{
    sections.push(last).lemma_flatten_and_flatten_alt_are_equivalent();
    sections.lemma_flatten_and_flatten_alt_are_equivalent();
    assert(sections.push(last).drop_last() =~= sections);
}

} // verus!
