//! Phase one: what each requested service is to become. Every service is
//! validated before anything is written, and the first refusal stops the run.

use crate::pam::edit::has_facelock_line;
use crate::pam::message::PamMessage;
use crate::pam::resolve::{
    backup_path, confined, resolve_service_path, write_target, EntryProbe, Origin, PamDirs,
    Rejected,
};
use crate::paths::file_name_of;
use crate::text::{joined, same};
use vstd::prelude::*;
use vstd::string::*;

verus! {

/// The service that a bare `pam add` means.
pub const DEFAULT_PAM_SERVICE: &'static str = "sudo";

/// Services whose stacks can lock the machine, or the network, out. Adding
/// face authentication to one needs its own flag; removing it never does.
pub const SENSITIVE_SERVICES: [&'static str; 8] = [
    "common-auth",
    "login",
    "password-auth",
    "password-auth-ac",
    "sshd",
    "system-auth",
    "system-auth-ac",
    "system-login",
];

/// Which verb runs.
#[derive(Debug, Clone, Copy, PartialEq, Eq, Structural)]
pub enum PamAction {
    Add,
    Remove,
    /// The default, so that a request built field by field reads and never
    /// writes until something names a verb on purpose.
    Status,
}

impl Default for PamAction {
    fn default() -> (r: Self)
        ensures
            r == PamAction::Status,
    {
        PamAction::Status
    }
}

/// The word that an action is called by.
pub open spec fn action_word(action: PamAction) -> Seq<char> {
    match action {
        PamAction::Add => "add"@,
        PamAction::Remove => "remove"@,
        PamAction::Status => "status"@,
    }
}

impl PamAction {
    /// The word that this action reports as `"command"`.
    pub fn word(self) -> (r: &'static str)
        ensures
            r@ == action_word(self),
    {
        match self {
            PamAction::Add => "add",
            PamAction::Remove => "remove",
            PamAction::Status => "status",
        }
    }
}

/// A resolved `facelock pam` invocation. Fields that do not apply to an action
/// are ignored by it.
#[derive(Debug, Clone, PartialEq, Eq)]
pub struct PamRequest {
    pub action: PamAction,
    /// Requested services, in the order given. Empty means
    /// [`DEFAULT_PAM_SERVICE`].
    pub services: Vec<String>,
    /// Suppress prompts. Never unlocks [`SENSITIVE_SERVICES`].
    pub no_confirm: bool,
    /// Accept the risk of editing a [`SENSITIVE_SERVICES`] entry.
    pub allow_sensitive: bool,
    /// Treat a missing service file as success rather than an error.
    pub if_present: bool,
    /// Report the resolved plan and write nothing.
    pub dry_run: bool,
    /// Emit one JSON document instead of human text.
    pub json: bool,
}

impl Default for PamRequest {
    fn default() -> (r: Self)
        ensures
            r.action == PamAction::Status,
            r.services@.len() == 0,
            !r.no_confirm && !r.allow_sensitive && !r.if_present && !r.dry_run && !r.json,
    {
        PamRequest {
            action: PamAction::Status,
            services: Vec::new(),
            no_confirm: false,
            allow_sensitive: false,
            if_present: false,
            dry_run: false,
            json: false,
        }
    }
}

/// Which write runs. A status is none.
#[derive(Debug, Clone, Copy, PartialEq, Eq, Structural)]
pub enum WriteAction {
    Add,
    Remove,
}

impl WriteAction {
    /// The write that an action asks for.
    pub open spec fn asked_for(action: PamAction) -> Option<WriteAction> {
        match action {
            PamAction::Add => Some(WriteAction::Add),
            PamAction::Remove => Some(WriteAction::Remove),
            PamAction::Status => None,
        }
    }

    /// The write that an action asks for.
    pub fn of(action: PamAction) -> (r: Option<Self>)
        ensures
            r == WriteAction::asked_for(action),
    {
        match action {
            PamAction::Add => Some(WriteAction::Add),
            PamAction::Remove => Some(WriteAction::Remove),
            PamAction::Status => None,
        }
    }
}

/// One write: the verb, the request, and the flag that unlocks a sensitive
/// service on the surface that the caller uses.
pub struct WriteRequest<'a> {
    pub action: WriteAction,
    pub request: &'a PamRequest,
    pub remedy: &'a str,
}

/// What a plan depends on of a write.
pub struct WriteView {
    pub action: WriteAction,
    pub services: Seq<Seq<char>>,
    pub allow_sensitive: bool,
    pub if_present: bool,
    pub remedy: Seq<char>,
}

impl<'a> View for WriteRequest<'a> {
    type V = WriteView;

    open spec fn view(&self) -> WriteView {
        WriteView {
            action: self.action,
            services: crate::text::texts(self.request.services@),
            allow_sensitive: self.request.allow_sensitive,
            if_present: self.request.if_present,
            remedy: self.remedy@,
        }
    }
}

/// What a service is planned to become.
#[derive(Debug, Clone, PartialEq, Eq)]
pub enum Plan<S = String> {
    /// The file needs rewriting, from this content.
    Rewrite { content: S },
    /// The service is only in a vendor directory: a local override is to be
    /// created from this content.
    Override { content: S },
    /// The service is only in a vendor directory, and this verb does not write
    /// there.
    VendorOnly,
    /// Already in the requested state.
    NoChange,
    /// No service file, and that was said to be fine.
    Absent,
}

/// A validated service: the file its name means, where that was found, where
/// its backup goes, and what is planned for it.
#[derive(Debug, Clone, PartialEq, Eq)]
pub struct Target<S = String, L = Vec<String>> {
    pub service: S,
    pub path: S,
    pub origin: Origin<S, L>,
    pub backup: S,
    pub plan: Plan<S>,
}

/// A target as contracts speak of it.
pub type TargetView = Target<Seq<char>, Seq<Seq<char>>>;

impl View for Plan<String> {
    type V = Plan<Seq<char>>;

    open spec fn view(&self) -> Plan<Seq<char>> {
        match *self {
            Plan::Rewrite { content } => Plan::Rewrite { content: content@ },
            Plan::Override { content } => Plan::Override { content: content@ },
            Plan::VendorOnly => Plan::VendorOnly,
            Plan::NoChange => Plan::NoChange,
            Plan::Absent => Plan::Absent,
        }
    }
}

impl View for Target<String, Vec<String>> {
    type V = Target<Seq<char>, Seq<Seq<char>>>;

    open spec fn view(&self) -> Target<Seq<char>, Seq<Seq<char>>> {
        Target {
            service: self.service@,
            path: self.path@,
            origin: self.origin@,
            backup: self.backup@,
            plan: self.plan@,
        }
    }
}

/// What reading a service file gave.
#[derive(Debug, Clone, PartialEq, Eq)]
pub enum ReadProbe<S = String> {
    Content(S),
    NotFound,
    Failed(S),
}

/// Whether the override directory can take a new file.
#[derive(Debug, Clone, PartialEq, Eq)]
pub enum DirProbe<S = String> {
    Writable,
    Refused { dir: S, error: S },
}

/// What the file system says of one service: the entry of each directory, the
/// content of the file that the name means, and whether an override could be
/// created.
#[derive(Debug, Clone, PartialEq, Eq)]
pub struct ServiceFacts {
    pub entries: Vec<EntryProbe>,
    pub read: ReadProbe,
    pub override_dir: DirProbe,
}

/// The facts as contracts speak of them.
pub struct FactsView {
    pub entries: Seq<EntryProbe<Seq<char>>>,
    pub read: ReadProbe<Seq<char>>,
    pub override_dir: DirProbe<Seq<char>>,
}

impl View for ReadProbe<String> {
    type V = ReadProbe<Seq<char>>;

    open spec fn view(&self) -> ReadProbe<Seq<char>> {
        match *self {
            ReadProbe::Content(c) => ReadProbe::Content(c@),
            ReadProbe::NotFound => ReadProbe::NotFound,
            ReadProbe::Failed(e) => ReadProbe::Failed(e@),
        }
    }
}

impl View for DirProbe<String> {
    type V = DirProbe<Seq<char>>;

    open spec fn view(&self) -> DirProbe<Seq<char>> {
        match *self {
            DirProbe::Writable => DirProbe::Writable,
            DirProbe::Refused { dir, error } => DirProbe::Refused { dir: dir@, error: error@ },
        }
    }
}

impl View for ServiceFacts {
    type V = FactsView;

    open spec fn view(&self) -> FactsView {
        FactsView {
            entries: crate::pam::resolve::probes_view(self.entries@),
            read: self.read@,
            override_dir: self.override_dir@,
        }
    }
}

// ---------------------------------------------------------------------------
// The sensitive gate
// ---------------------------------------------------------------------------

/// Whether a service is one of [`SENSITIVE_SERVICES`].
pub open spec fn is_sensitive(name: Seq<char>) -> bool {
    ||| name == "common-auth"@
    ||| name == "login"@
    ||| name == "password-auth"@
    ||| name == "password-auth-ac"@
    ||| name == "sshd"@
    ||| name == "system-auth"@
    ||| name == "system-auth-ac"@
    ||| name == "system-login"@
}

/// Whether a write to a name is refused: only an addition to a sensitive
/// service whose risk was not accepted.
pub open spec fn is_gated(name: Seq<char>, write: WriteView) -> bool {
    write.action == WriteAction::Add && !write.allow_sensitive && is_sensitive(name)
}

/// Whether a service is one of [`SENSITIVE_SERVICES`].
pub fn sensitive(name: &str) -> (r: bool)
    ensures
        r == is_sensitive(name@),
{
    let list = SENSITIVE_SERVICES;
    assert(list@ =~= seq![
        "common-auth",
        "login",
        "password-auth",
        "password-auth-ac",
        "sshd",
        "system-auth",
        "system-auth-ac",
        "system-login",
    ]);
    let mut i: usize = 0;
    while i < 8
        invariant
            i <= 8,
            list@ == SENSITIVE_SERVICES@,
            list@.len() == 8,
            forall|k: int| 0 <= k < i ==> (#[trigger] list@[k])@ != name@,
            forall|k: int| 0 <= k < 8 ==> is_sensitive((#[trigger] list@[k])@),
            is_sensitive(name@) ==> exists|k: int| 0 <= k < 8 && (#[trigger] list@[k])@ == name@,
        decreases 8 - i,
    {
        if same(name, list[i]) {
            return true;
        }
        i += 1;
    }
    false
}

/// Refuse a sensitive service unless the caller accepted the risk. Asked twice
/// of each service: of the name as typed, and of the file it means, since a
/// link is otherwise an ungated name for a gated file.
pub fn gate_sensitive(name: &str, write: &WriteRequest) -> (r: Result<(), PamMessage>)
    ensures
        match r {
            Ok(_) => !is_gated(name@, write@),
            Err(m) => is_gated(name@, write@) && m@ == (PamMessage::PamSensitiveRefused {
                service: name@,
                remedy: write.remedy@,
            }),
        },
{
    if write.action == WriteAction::Add && !write.request.allow_sensitive && sensitive(name) {
        Err(
            PamMessage::PamSensitiveRefused {
                service: String::from_str(name),
                remedy: String::from_str(write.remedy),
            },
        )
    } else {
        Ok(())
    }
}

// ---------------------------------------------------------------------------
// The requested services
// ---------------------------------------------------------------------------

/// The names without repetitions, each where it first stands.
pub open spec fn unique(names: Seq<Seq<char>>) -> Seq<Seq<char>>
    decreases names.len(),
{
    if names.len() == 0 {
        Seq::empty()
    } else if unique(names.drop_last()).contains(names.last()) {
        unique(names.drop_last())
    } else {
        unique(names.drop_last()).push(names.last())
    }
}

/// The services that a request means: those it names, each once, or the
/// default.
pub open spec fn requested(names: Seq<Seq<char>>) -> Seq<Seq<char>> {
    if names.len() == 0 {
        seq![DEFAULT_PAM_SERVICE@]
    } else {
        unique(names)
    }
}

/// The services that a request means, in the order given, each once.
pub fn requested_services(services: &Vec<String>) -> (r: Vec<String>)
    ensures
        crate::text::texts(r@) == requested(crate::text::texts(services@)),
        r.len() > 0,
{
    let ghost all = crate::text::texts(services@);
    let mut out: Vec<String> = Vec::new();
    let mut i: usize = 0;
    assert(crate::text::texts(out@) == unique(all.take(0)));
    while i < services.len()
        invariant
            i <= services.len(),
            all == crate::text::texts(services@),
            crate::text::texts(out@) == unique(all.take(i as int)),
            i > 0 ==> out.len() > 0,
        decreases services.len() - i,
    {
        let ghost upto = all.take(i as int + 1);
        let ghost before = crate::text::texts(out@);
        assert(upto.drop_last() == all.take(i as int));
        assert(upto.last() == services[i as int]@);
        let mut seen = false;
        let mut k: usize = 0;
        while k < out.len()
            invariant
                k <= out.len(),
                i < services.len(),
                before == crate::text::texts(out@),
                seen == exists|m: int| 0 <= m < k && before[m] == services[i as int]@,
            decreases out.len() - k,
        {
            assert(before[k as int] == out[k as int]@);
            if out[k] == services[i] {
                seen = true;
            }
            k += 1;
        }
        assert(seen == before.contains(services[i as int]@));
        if !seen {
            out.push(services[i].clone());
            assert(crate::text::texts(out@) == before.push(services[i as int]@));
        }
        i += 1;
    }
    assert(all.take(services.len() as int) == all);
    if out.len() == 0 {
        out.push(String::from_str(DEFAULT_PAM_SERVICE));
        assert(crate::text::texts(out@) == seq![DEFAULT_PAM_SERVICE@]);
    }
    out
}

// ---------------------------------------------------------------------------
// Locating a service
// ---------------------------------------------------------------------------

/// A located service, with nothing planned for it.
pub open spec fn located(
    dirs: Seq<Seq<char>>,
    service: Seq<char>,
    entries: Seq<EntryProbe<Seq<char>>>,
) -> Result<TargetView, Rejected<Seq<char>>> {
    if !crate::pam::resolve::is_confined(service) {
        Err(Rejected::Name)
    } else {
        match crate::pam::resolve::search(dirs, service, entries, 0) {
            Ok((path, origin)) => Ok(
                Target {
                    service,
                    path,
                    origin,
                    backup: crate::pam::resolve::backup_of(
                        crate::pam::resolve::write_path_of(path, origin),
                    ),
                    plan: Plan::NoChange,
                },
            ),
            Err(e) => Err(e),
        }
    }
}

/// A located service with character sequences for strings.
pub open spec fn located_view(r: Result<Target, Rejected>) -> Result<
    TargetView,
    Rejected<Seq<char>>,
> {
    match r {
        Ok(t) => Ok(t@),
        Err(e) => Err(e@),
    }
}

/// Every path that was looked at, for the refusal of a service that is not
/// found. One that was found and then vanished names where it was found.
pub open spec fn tried_paths_of(target: TargetView) -> Seq<char> {
    match target.origin {
        Origin::Nowhere { tried } => crate::text::join(tried, ", "@),
        _ => target.path,
    }
}

/// The file that a report row is about: the resolved one, or the override that
/// a plan creates.
pub open spec fn reported_path_of(target: TargetView) -> Seq<char> {
    match target.plan {
        Plan::Override { .. } => crate::pam::resolve::write_path_of(target.path, target.origin),
        _ => target.path,
    }
}

impl Target<String, Vec<String>> {
    /// Resolve one service, or say why it cannot be. This is the only place
    /// where a service name becomes a path.
    pub fn locate(dirs: &PamDirs, service: &str, entries: &Vec<EntryProbe>) -> (r: Result<
        Self,
        Rejected,
    >)
        requires
            entries.len() == dirs@.len(),
        ensures
            located_view(r) == located(
                dirs@,
                service@,
                crate::pam::resolve::probes_view(entries@),
            ),
    {
        if confined(service).is_err() {
            return Err(Rejected::Name);
        }
        match resolve_service_path(dirs, service, entries) {
            Ok((path, origin)) => {
                let backup = backup_path(write_target(path.as_str(), &origin));
                Ok(
                    Target {
                        service: String::from_str(service),
                        path,
                        origin,
                        backup,
                        plan: Plan::NoChange,
                    },
                )
            },
            Err(e) => Err(e),
        }
    }

    /// The file that a write lands in. Never one of a vendor directory.
    pub fn write_path(&self) -> (r: &str)
        ensures
            r@ == crate::pam::resolve::write_path_of(self@.path, self@.origin),
    {
        write_target(self.path.as_str(), &self.origin)
    }

    /// The file that the name means.
    pub fn path_string(&self) -> (r: String)
        ensures
            r@ == self@.path,
    {
        self.path.clone()
    }

    /// The file that a report row is about.
    pub fn reported_path(&self) -> (r: String)
        ensures
            r@ == reported_path_of(self@),
    {
        match &self.plan {
            Plan::Override { .. } => String::from_str(self.write_path()),
            _ => self.path.clone(),
        }
    }

    /// Where the backup goes.
    pub fn backup_string(&self) -> (r: String)
        ensures
            r@ == self@.backup,
    {
        self.backup.clone()
    }

    /// Whether the service file exists anywhere on the search path.
    pub fn is_present(&self) -> (r: bool)
        ensures
            r == !(self@.origin is Nowhere),
    {
        match &self.origin {
            Origin::Nowhere { .. } => false,
            _ => true,
        }
    }

    /// Every path that was looked at.
    pub fn tried_paths(&self) -> (r: String)
        ensures
            r@ == tried_paths_of(self@),
    {
        match &self.origin {
            Origin::Nowhere { tried } => joined(tried, ", "),
            _ => self.path.clone(),
        }
    }
}

/// Whether a service has a file anywhere on the search path that the writer
/// would follow.
pub fn service_exists(dirs: &PamDirs, service: &str, entries: &Vec<EntryProbe>) -> (r: bool)
    requires
        entries.len() == dirs@.len(),
    ensures
        r == match located(dirs@, service@, crate::pam::resolve::probes_view(entries@)) {
            Ok(target) => !(target.origin is Nowhere),
            Err(_) => false,
        },
{
    match Target::locate(dirs, service, entries) {
        Ok(target) => target.is_present(),
        Err(_) => false,
    }
}

/// Whether a service's file carries the facelock line. One that cannot be
/// resolved or read does not.
pub fn is_configured(dirs: &PamDirs, service: &str, facts: &ServiceFacts) -> (r: bool)
    requires
        facts.entries.len() == dirs@.len(),
    ensures
        r == (located(dirs@, service@, facts@.entries) is Ok && (facts@.read matches
            ReadProbe::Content(c) && crate::pam::edit::carries_line(c))),
{
    match Target::locate(dirs, service, &facts.entries) {
        Ok(_) => match &facts.read {
            ReadProbe::Content(content) => has_facelock_line(content.as_str()),
            _ => false,
        },
        Err(_) => false,
    }
}

// ---------------------------------------------------------------------------
// Planning
// ---------------------------------------------------------------------------

/// What a located service is to become, or the refusal.
pub open spec fn planned(
    target: TargetView,
    write: WriteView,
    read: ReadProbe<Seq<char>>,
    override_dir: DirProbe<Seq<char>>,
) -> Result<TargetView, PamMessage<Seq<char>>> {
    match read {
        ReadProbe::NotFound => if write.if_present {
            Ok(Target { plan: Plan::Absent, ..target })
        } else {
            Err(PamMessage::PamFileNotFound { paths: tried_paths_of(target) })
        },
        ReadProbe::Failed(error) => Err(PamMessage::PamReadFailed { path: target.path, error }),
        ReadProbe::Content(content) => match target.origin {
            Origin::Vendor { override_path } => if write.action == WriteAction::Remove {
                Ok(Target { plan: Plan::VendorOnly, ..target })
            } else if crate::pam::edit::carries_line(content) {
                Ok(Target { plan: Plan::NoChange, ..target })
            } else {
                match override_dir {
                    DirProbe::Writable => Ok(Target { plan: Plan::Override { content }, ..target }),
                    DirProbe::Refused { dir, error } => Err(
                        PamMessage::PamOverrideDirUnwritable { dir, path: override_path, error },
                    ),
                }
            },
            _ => if crate::pam::edit::carries_line(content) == (write.action
                == WriteAction::Remove) {
                Ok(Target { plan: Plan::Rewrite { content }, ..target })
            } else {
                Ok(Target { plan: Plan::NoChange, ..target })
            },
        },
    }
}

/// What one requested service is to become, or the refusal: the guard on the
/// name, then resolution, then the guard on the file, then what the file holds.
pub open spec fn service_plan(
    dirs: Seq<Seq<char>>,
    write: WriteView,
    service: Seq<char>,
    facts: FactsView,
) -> Result<TargetView, PamMessage<Seq<char>>> {
    if is_gated(service, write) {
        Err(PamMessage::PamSensitiveRefused { service, remedy: write.remedy })
    } else {
        match located(dirs, service, facts.entries) {
            Err(why) => Err(crate::pam::resolve::rejected_message(why, service)),
            Ok(target) => if is_gated(crate::paths::file_name(target.path), write) {
                Err(
                    PamMessage::PamSensitiveRefused {
                        service: crate::paths::file_name(target.path),
                        remedy: write.remedy,
                    },
                )
            } else {
                planned(target, write, facts.read, facts.override_dir)
            },
        }
    }
}

/// The plans of all services, or the first refusal among them.
pub open spec fn all_plans(
    dirs: Seq<Seq<char>>,
    write: WriteView,
    services: Seq<Seq<char>>,
    facts: Seq<FactsView>,
) -> Result<Seq<TargetView>, PamMessage<Seq<char>>>
    decreases services.len(),
{
    if services.len() == 0 {
        Ok(Seq::empty())
    } else {
        match all_plans(dirs, write, services.drop_last(), facts.drop_last()) {
            Err(m) => Err(m),
            Ok(targets) => match service_plan(dirs, write, services.last(), facts.last()) {
                Err(m) => Err(m),
                Ok(target) => Ok(targets.push(target)),
            },
        }
    }
}

/// A plan with character sequences for strings.
pub open spec fn plan_view(r: Result<Target, PamMessage>) -> Result<
    TargetView,
    PamMessage<Seq<char>>,
> {
    match r {
        Ok(t) => Ok(t@),
        Err(m) => Err(m@),
    }
}

/// The targets with character sequences for strings.
pub open spec fn targets_view(targets: Seq<Target>) -> Seq<TargetView> {
    targets.map_values(|t: Target| t@)
}

/// Plans with character sequences for strings.
pub open spec fn plans_view(r: Result<Vec<Target>, PamMessage>) -> Result<
    Seq<TargetView>,
    PamMessage<Seq<char>>,
> {
    match r {
        Ok(v) => Ok(targets_view(v@)),
        Err(m) => Err(m@),
    }
}

/// The facts with character sequences for strings.
pub open spec fn facts_view(facts: Seq<ServiceFacts>) -> Seq<FactsView> {
    facts.map_values(|f: ServiceFacts| f@)
}

/// What a located service is to become, or the refusal.
pub fn plan_located(
    target: Target,
    write: &WriteRequest,
    read: &ReadProbe,
    override_dir: &DirProbe,
) -> (r: Result<Target, PamMessage>)
    ensures
        plan_view(r) == planned(target@, write@, read@, override_dir@),
{
    match read {
        ReadProbe::NotFound => {
            if write.request.if_present {
                Ok(Target { plan: Plan::Absent, ..target })
            } else {
                Err(PamMessage::PamFileNotFound { paths: target.tried_paths() })
            }
        },
        ReadProbe::Failed(error) => Err(
            PamMessage::PamReadFailed { path: target.path, error: error.clone() },
        ),
        ReadProbe::Content(content) => {
            let present = has_facelock_line(content.as_str());
            let override_path: Option<String> = match &target.origin {
                Origin::Vendor { override_path } => Some(override_path.clone()),
                _ => None,
            };
            match override_path {
                Some(override_path) => {
                    if write.action == WriteAction::Remove {
                        Ok(Target { plan: Plan::VendorOnly, ..target })
                    } else if present {
                        Ok(Target { plan: Plan::NoChange, ..target })
                    } else {
                        match override_dir {
                            DirProbe::Writable => Ok(
                                Target {
                                    plan: Plan::Override { content: content.clone() },
                                    ..target
                                },
                            ),
                            DirProbe::Refused { dir, error } => Err(
                                PamMessage::PamOverrideDirUnwritable {
                                    dir: dir.clone(),
                                    path: override_path,
                                    error: error.clone(),
                                },
                            ),
                        }
                    }
                },
                None => {
                    if present == (write.action == WriteAction::Remove) {
                        Ok(Target { plan: Plan::Rewrite { content: content.clone() }, ..target })
                    } else {
                        Ok(Target { plan: Plan::NoChange, ..target })
                    }
                },
            }
        },
    }
}

/// What one requested service is to become, or the refusal.
pub fn plan_service(
    dirs: &PamDirs,
    write: &WriteRequest,
    service: &str,
    facts: &ServiceFacts,
) -> (r: Result<Target, PamMessage>)
    requires
        facts.entries.len() == dirs@.len(),
    ensures
        plan_view(r) == service_plan(dirs@, write@, service@, facts@),
{
    match gate_sensitive(service, write) {
        Err(m) => {
            return Err(m);
        },
        Ok(_) => {},
    }
    match Target::locate(dirs, service, &facts.entries) {
        Err(why) => Err(why.message(service)),
        Ok(target) => {
            let name = file_name_of(target.path.as_str());
            match gate_sensitive(name.as_str(), write) {
                Err(m) => {
                    return Err(m);
                },
                Ok(_) => {},
            }
            plan_located(target, write, &facts.read, &facts.override_dir)
        },
    }
}

/// Phase one: a plan for every requested service, or the first refusal, with
/// which nothing is written. `facts` holds what the file system says of each
/// requested service.
pub fn plan_writes(dirs: &PamDirs, write: &WriteRequest, facts: &Vec<ServiceFacts>) -> (r: Result<
    Vec<Target>,
    PamMessage,
>)
    requires
        facts.len() == requested(write@.services).len(),
        forall|i: int| 0 <= i < facts.len() ==> (#[trigger] facts[i]).entries.len() == dirs@.len(),
    ensures
        plans_view(r) == all_plans(
            dirs@,
            write@,
            requested(write@.services),
            facts_view(facts@),
        ),
{
    let services = requested_services(&write.request.services);
    let ghost all = requested(write@.services);
    let ghost known = facts_view(facts@);
    let mut targets: Vec<Target> = Vec::new();
    let mut i: usize = 0;
    assert(all.take(0) == Seq::<Seq<char>>::empty());
    assert(targets_view(targets@) == Seq::<TargetView>::empty());
    while i < services.len()
        invariant
            i <= services.len(),
            services.len() == facts.len(),
            all == crate::text::texts(services@),
            known == facts_view(facts@),
            forall|k: int|
                0 <= k < facts.len() ==> (#[trigger] facts[k]).entries.len() == dirs@.len(),
            all_plans(dirs@, write@, all.take(i as int), known.take(i as int)) == Ok::<
                Seq<TargetView>,
                PamMessage<Seq<char>>,
            >(targets_view(targets@)),
            all == requested(write@.services),
        decreases services.len() - i,
    {
        let ghost before = targets_view(targets@);
        proof {
            assert(all.take(i as int + 1).drop_last() == all.take(i as int));
            assert(known.take(i as int + 1).drop_last() == known.take(i as int));
            assert(all.take(i as int + 1).last() == services[i as int]@);
            assert(known.take(i as int + 1).last() == facts[i as int]@);
        }
        match plan_service(dirs, write, services[i].as_str(), &facts[i]) {
            Err(m) => {
                proof {
                    lemma_first_refusal_stands(dirs@, write@, all, known, i as int + 1);
                }
                return Err(m);
            },
            Ok(target) => {
                targets.push(target);
                assert(targets_view(targets@) == before.push(target@));
            },
        }
        i += 1;
    }
    assert(all.take(services.len() as int) == all);
    assert(known.take(services.len() as int) == known);
    Ok(targets)
}

proof fn lemma_first_refusal_stands(
    dirs: Seq<Seq<char>>,
    write: WriteView,
    services: Seq<Seq<char>>,
    facts: Seq<FactsView>,
    n: int,
)
    requires
        0 <= n <= services.len(),
        facts.len() == services.len(),
        all_plans(dirs, write, services.take(n), facts.take(n)) is Err,
    ensures
        all_plans(dirs, write, services, facts) == all_plans(
            dirs,
            write,
            services.take(n),
            facts.take(n),
        ),
    decreases services.len(),
{
    if n == services.len() {
        assert(services.take(n) == services);
        assert(facts.take(n) == facts);
    } else {
        assert(services.drop_last().take(n) == services.take(n));
        assert(facts.drop_last().take(n) == facts.take(n));
        lemma_first_refusal_stands(dirs, write, services.drop_last(), facts.drop_last(), n);
    }
}

// ---------------------------------------------------------------------------
// Laws
// ---------------------------------------------------------------------------

/// Looking asks for no write, and each verb is called by its own word.
pub proof fn law_verbs_go_by_their_words(action: PamAction)
    ensures
        WriteAction::asked_for(action) is None <==> action is Status,
        WriteAction::asked_for(PamAction::Add) == Some(WriteAction::Add),
        WriteAction::asked_for(PamAction::Remove) == Some(WriteAction::Remove),
        action_word(PamAction::Add) == "add"@,
        action_word(PamAction::Remove) == "remove"@,
        action_word(PamAction::Status) == "status"@,
{
}

/// A file that is nowhere is told of by every path that was tried, and any other by
/// its own.
pub proof fn law_absence_is_told_by_every_path(target: TargetView)
    ensures
        target.origin matches Origin::Nowhere { tried } ==> tried_paths_of(target)
            == crate::text::join(tried, ", "@),
        !(target.origin is Nowhere) ==> tried_paths_of(target) == target.path,
{
}

/// A refusal of any service is a refusal of the whole run: there is then no
/// plan for any other service to be carried out.
pub proof fn law_one_refusal_stops_the_run(
    dirs: Seq<Seq<char>>,
    write: WriteView,
    services: Seq<Seq<char>>,
    facts: Seq<FactsView>,
    i: int,
)
    requires
        facts.len() == services.len(),
        0 <= i < services.len(),
        service_plan(dirs, write, services[i], facts[i]) is Err,
    ensures
        all_plans(dirs, write, services, facts) is Err,
    decreases services.len(),
{
    if i < services.len() - 1 {
        law_one_refusal_stops_the_run(dirs, write, services.drop_last(), facts.drop_last(), i);
    }
}

/// A sensitive service is refused without its own flag, whatever the file
/// system holds; no other part of a request unlocks it.
pub proof fn law_sensitive_needs_its_own_flag(
    dirs: Seq<Seq<char>>,
    write: WriteView,
    service: Seq<char>,
    facts: FactsView,
)
    requires
        write.action == WriteAction::Add,
        !write.allow_sensitive,
        is_sensitive(service),
    ensures
        service_plan(dirs, write, service, facts) == Err::<TargetView, PamMessage<Seq<char>>>(
            PamMessage::PamSensitiveRefused { service, remedy: write.remedy },
        ),
{
}

/// Neither is a sensitive file reached under another name.
pub proof fn law_sensitive_file_is_gated_behind_any_name(
    dirs: Seq<Seq<char>>,
    write: WriteView,
    service: Seq<char>,
    facts: FactsView,
)
    requires
        write.action == WriteAction::Add,
        !write.allow_sensitive,
        located(dirs, service, facts.entries) matches Ok(target) && is_sensitive(
            crate::paths::file_name(target.path),
        ),
    ensures
        service_plan(dirs, write, service, facts) matches Err(
            PamMessage::PamSensitiveRefused { .. },
        ),
{
}

/// A removal is never gated.
pub proof fn law_removal_is_never_gated(
    dirs: Seq<Seq<char>>,
    write: WriteView,
    service: Seq<char>,
    facts: FactsView,
)
    requires
        write.action == WriteAction::Remove,
    ensures
        !(service_plan(dirs, write, service, facts) matches Err(
            PamMessage::PamSensitiveRefused { .. },
        )),
{
}

/// A name that is not one path component is refused on both verbs, whatever
/// the file system holds.
pub proof fn law_unconfined_name_is_refused(
    dirs: Seq<Seq<char>>,
    write: WriteView,
    service: Seq<char>,
    facts: FactsView,
)
    requires
        !crate::pam::resolve::is_confined(service),
        !is_gated(service, write),
    ensures
        service_plan(dirs, write, service, facts) == Err::<TargetView, PamMessage<Seq<char>>>(
            PamMessage::PamInvalidServiceName { service },
        ),
{
}

/// `--if-present` turns a missing file into a no-op and changes nothing else.
pub proof fn law_if_present_converts_absence_only(
    target: TargetView,
    strict: WriteView,
    lenient: WriteView,
    read: ReadProbe<Seq<char>>,
    override_dir: DirProbe<Seq<char>>,
)
    requires
        !strict.if_present,
        lenient == (WriteView { if_present: true, ..strict }),
    ensures
        read is NotFound ==> planned(target, strict, read, override_dir) is Err && planned(
            target,
            lenient,
            read,
            override_dir,
        ) == Ok::<TargetView, PamMessage<Seq<char>>>(Target { plan: Plan::Absent, ..target }),
        !(read is NotFound) ==> planned(target, strict, read, override_dir) == planned(
            target,
            lenient,
            read,
            override_dir,
        ),
{
}

/// A file of a vendor directory is never planned to be rewritten.
pub proof fn law_vendor_files_are_never_rewritten(
    target: TargetView,
    write: WriteView,
    read: ReadProbe<Seq<char>>,
    override_dir: DirProbe<Seq<char>>,
)
    requires
        target.origin is Vendor,
    ensures
        planned(target, write, read, override_dir) matches Ok(t) ==> !(t.plan is Rewrite),
{
}

/// What an addition wrote needs no second addition, and can be removed; what a
/// removal wrote needs no second removal.
pub proof fn law_writes_settle(
    target: TargetView,
    write: WriteView,
    content: Seq<char>,
    override_dir: DirProbe<Seq<char>>,
)
    requires
        target.origin is Local,
    ensures
        write.action == WriteAction::Add ==> planned(
            target,
            write,
            ReadProbe::Content(crate::pam::edit::added(content)),
            override_dir,
        ) == Ok::<TargetView, PamMessage<Seq<char>>>(Target { plan: Plan::NoChange, ..target }),
        write.action == WriteAction::Remove ==> planned(
            target,
            write,
            ReadProbe::Content(crate::pam::edit::removed(content)),
            override_dir,
        ) == Ok::<TargetView, PamMessage<Seq<char>>>(Target { plan: Plan::NoChange, ..target }),
        write.action == WriteAction::Remove ==> (planned(
            target,
            write,
            ReadProbe::Content(crate::pam::edit::added(content)),
            override_dir,
        ) matches Ok(t) && t.plan is Rewrite),
{
    crate::pam::edit::law_added_file_carries_the_line(content);
    crate::pam::edit::law_removed_file_carries_no_line(content);
}

/// What is planned for a file by what it holds: an addition rewrites a local file
/// exactly where it lacks the line, and a removal exactly where it has it; a vendor
/// file that lacks the line is copied by an addition and left alone by a removal.
/// What is rewritten or copied is what was read.
pub proof fn law_the_content_decides_the_plan(
    target: TargetView,
    write: WriteView,
    content: Seq<char>,
    override_dir: DirProbe<Seq<char>>,
)
    ensures
        ({
            let plan = planned(target, write, ReadProbe::Content(content), override_dir);
            let there = crate::pam::edit::carries_line(content);
            let adding = write.action == WriteAction::Add;
            &&& !(target.origin is Vendor) && adding && !there ==> plan == Ok::<
                TargetView,
                PamMessage<Seq<char>>,
            >(Target { plan: Plan::Rewrite { content }, ..target })
            &&& !(target.origin is Vendor) && !adding && there ==> plan == Ok::<
                TargetView,
                PamMessage<Seq<char>>,
            >(Target { plan: Plan::Rewrite { content }, ..target })
            &&& !(target.origin is Vendor) && adding == there ==> plan == Ok::<
                TargetView,
                PamMessage<Seq<char>>,
            >(Target { plan: Plan::NoChange, ..target })
            &&& target.origin is Vendor && !adding ==> plan == Ok::<
                TargetView,
                PamMessage<Seq<char>>,
            >(Target { plan: Plan::VendorOnly, ..target })
            &&& target.origin is Vendor && adding && there ==> plan == Ok::<
                TargetView,
                PamMessage<Seq<char>>,
            >(Target { plan: Plan::NoChange, ..target })
            &&& target.origin is Vendor && adding && !there && override_dir is Writable ==> plan
                == Ok::<TargetView, PamMessage<Seq<char>>>(
                Target { plan: Plan::Override { content }, ..target },
            )
            &&& target.origin is Vendor && adding && !there && !(override_dir is Writable)
                ==> plan is Err
        }),
{
}

/// A file that is not there is refused with every path that was tried, and one that
/// cannot be read with its error.
pub proof fn law_what_cannot_be_read_is_refused(
    target: TargetView,
    write: WriteView,
    error: Seq<char>,
    override_dir: DirProbe<Seq<char>>,
    tried: Seq<Seq<char>>,
)
    ensures
        planned(target, write, ReadProbe::Failed(error), override_dir) == Err::<
            TargetView,
            PamMessage<Seq<char>>,
        >(PamMessage::PamReadFailed { path: target.path, error }),
        !write.if_present ==> planned(
            Target { origin: Origin::Nowhere { tried }, ..target },
            write,
            ReadProbe::NotFound,
            override_dir,
        ) == Err::<TargetView, PamMessage<Seq<char>>>(
            PamMessage::PamFileNotFound { paths: crate::text::join(tried, ", "@) },
        ),
{
}

/// A service that is neither gated nor refused is planned for the file that its
/// name means: the plan keeps the name, the path, where it was found, and the place
/// of the backup, which is beside the file that is written.
pub proof fn law_the_plan_is_for_the_file_that_was_meant(
    dirs: Seq<Seq<char>>,
    write: WriteView,
    service: Seq<char>,
    facts: FactsView,
)
    ensures
        service_plan(dirs, write, service, facts) matches Ok(target) ==> {
            &&& target.service == service
            &&& crate::pam::resolve::search(dirs, service, facts.entries, 0) == Ok::<
                (Seq<char>, Origin<Seq<char>, Seq<Seq<char>>>),
                Rejected<Seq<char>>,
            >((target.path, target.origin))
            &&& target.backup == (match target.origin {
                Origin::Vendor { override_path } => override_path,
                _ => target.path,
            }) + ".facelock-backup"@
            &&& reported_path_of(target) == (match (target.plan, target.origin) {
                (Plan::Override { .. }, Origin::Vendor { override_path }) => override_path,
                _ => target.path,
            })
        },
{
}

/// A service is held back exactly if it is sensitive, the line is to be added, and
/// the flag that permits it was not given.
pub proof fn law_the_flag_permits_the_sensitive(write: WriteView, name: Seq<char>)
    ensures
        is_gated(name, write) <==> write.action is Add && !write.allow_sensitive && is_sensitive(
            name,
        ),
        write.allow_sensitive ==> !is_gated(name, write),
        write.action is Remove ==> !is_gated(name, write),
{
}

/// The services that log a machine's users in, or that other services build upon,
/// are the sensitive ones; the default service is not among them.
pub proof fn law_the_sensitive_services(name: Seq<char>)
    ensures
        is_sensitive("sshd"@) && is_sensitive("login"@) && is_sensitive("system-auth"@)
            && is_sensitive("system-login"@) && is_sensitive("common-auth"@) && is_sensitive(
            "password-auth"@,
        ) && is_sensitive("system-auth-ac"@) && is_sensitive("password-auth-ac"@),
        is_sensitive(name) ==> crate::text::has_suffix(name, "auth"@) || crate::text::has_suffix(
            name,
            "auth-ac"@,
        ) || crate::text::has_suffix(name, "login"@) || name == "sshd"@,
        !is_sensitive(DEFAULT_PAM_SERVICE@),
{
    reveal_strlit("common-auth");
    reveal_strlit("login");
    reveal_strlit("password-auth");
    reveal_strlit("password-auth-ac");
    reveal_strlit("sshd");
    reveal_strlit("system-auth");
    reveal_strlit("system-auth-ac");
    reveal_strlit("system-login");
    reveal_strlit("sudo");
    reveal_strlit("auth");
    reveal_strlit("auth-ac");
    assert("common-auth"@.skip(7) =~= "auth"@);
    assert("login"@.skip(0) =~= "login"@);
    assert("password-auth"@.skip(9) =~= "auth"@);
    assert("password-auth-ac"@.skip(9) =~= "auth-ac"@);
    assert("system-auth"@.skip(7) =~= "auth"@);
    assert("system-auth-ac"@.skip(7) =~= "auth-ac"@);
    assert("system-login"@.skip(7) =~= "login"@);
    assert("sudo"@.len() == 4 && "sudo"@[1] == 'u' && "sshd"@[1] == 's');
    assert("common-auth"@.len() == 11 && "login"@.len() == 5 && "password-auth"@.len() == 13
        && "password-auth-ac"@.len() == 16 && "system-auth"@.len() == 11 && "system-auth-ac"@.len()
        == 14 && "system-login"@.len() == 12);
}

/// The requested services come in the order in which they were named, each at its
/// first mention, and no others; without any it is `sudo`.
pub proof fn law_requested_services_keep_their_order(names: Seq<Seq<char>>, name: Seq<char>)
    ensures
        requested(Seq::empty()) == seq!["sudo"@],
        names.len() > 0 ==> requested(names.push(name)) == if names.contains(name) {
            requested(names)
        } else {
            requested(names).push(name)
        },
        requested(seq![name]) == seq![name],
{
    assert(names.push(name).drop_last() =~= names);
    lemma_unique(names);
    lemma_unique_of(names);
    assert(seq![name].drop_last() =~= Seq::<Seq<char>>::empty());
    assert(unique(Seq::<Seq<char>>::empty()) =~= Seq::<Seq<char>>::empty());
    assert(unique(seq![name]) =~= seq![name]);
}

proof fn lemma_unique_of(names: Seq<Seq<char>>)
    ensures
        forall|n: Seq<char>| unique(names).contains(n) ==> names.contains(n),
    decreases names.len(),
{
    if names.len() > 0 {
        let front = names.drop_last();
        lemma_unique_of(front);
        assert forall|n: Seq<char>| unique(names).contains(n) implies names.contains(n) by {
            if unique(front).contains(n) {
                assert(front.contains(n));
                let i = choose|i: int| 0 <= i < front.len() && front[i] == n;
                assert(names[i] == n);
            } else {
                let k = choose|k: int| 0 <= k < unique(names).len() && unique(names)[k] == n;
                if k < unique(front).len() {
                    assert(unique(front)[k] == n);
                }
                assert(names[names.len() - 1] == n);
            }
        }
    }
}

/// Asking for a service twice is asking for it once.
pub proof fn law_requested_services_are_distinct(names: Seq<Seq<char>>)
    ensures
        requested(names).no_duplicates(),
        requested(names).len() > 0,
        forall|n: Seq<char>| names.contains(n) ==> requested(names).contains(n),
{
    lemma_unique(names);
}

proof fn lemma_unique(names: Seq<Seq<char>>)
    ensures
        unique(names).no_duplicates(),
        names.len() > 0 ==> unique(names).len() > 0,
        forall|n: Seq<char>| names.contains(n) ==> unique(names).contains(n),
    decreases names.len(),
{
    if names.len() > 0 {
        let front = names.drop_last();
        lemma_unique(front);
        assert forall|n: Seq<char>| names.contains(n) implies unique(names).contains(n) by {
            let i = choose|i: int| 0 <= i < names.len() && names[i] == n;
            if i < front.len() {
                assert(front[i] == n);
                assert(front.contains(n));
                let k = choose|k: int| 0 <= k < unique(front).len() && unique(front)[k] == n;
                assert(unique(names)[k] == n);
            } else if !unique(front).contains(names.last()) {
                assert(unique(names)[unique(front).len() as int] == n);
            }
        }
    }
}

} // verus!
