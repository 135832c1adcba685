//! What a file has to be to be trusted: the lock, its directory, activation
//! definitions, and the barrier.

use crate::lifecycle::activation::activation_delegates;
use crate::lifecycle::layout::{ErrorView, LifecycleError, LifecycleLayout};
use crate::text::{decimal_of, octal_of};
use vstd::prelude::*;
use vstd::string::*;

verus! {

/// Largest activation definition that is read.
pub const ACTIVATION_MAX_BYTES: u64 = 65536;

/// What the file system says of an open file.
#[derive(Debug, Clone, Copy, PartialEq, Eq, Structural)]
pub struct FileIdentity {
    pub is_file: bool,
    pub links: u64,
    pub len: u64,
    pub mode: u32,
    pub uid: u32,
    pub gid: u32,
    pub dev: u64,
    pub ino: u64,
}

/// The permission bits of a mode.
pub open spec fn permissions(mode: u32) -> u32 {
    mode & 0o7777
}

/// Whether a file that was just created needs its mode repaired, since the
/// process's mask may have clipped it. One that was already there is left as it
/// is.
pub fn needs_repair(created: bool, mode: u32, wanted: u32) -> (r: bool)
    ensures
        r == (created && permissions(mode) != wanted),
{
    created && mode & 0o7777 != wanted
}

/// An empty file of its own with mode 0600 and the expected owner: what the
/// lock and the barrier have to be.
pub open spec fn is_private_empty_file(meta: FileIdentity, owner: (u32, u32)) -> bool {
    &&& meta.is_file
    &&& meta.links == 1
    &&& meta.len == 0
    &&& permissions(meta.mode) == 0o600
    &&& (meta.uid, meta.gid) == owner
}

/// Whether a file is an empty file of its own with mode 0600 and the expected
/// owner.
pub fn private_empty_file(meta: &FileIdentity, owner: (u32, u32)) -> (r: bool)
    ensures
        r == is_private_empty_file(*meta, owner),
{
    meta.is_file && meta.links == 1 && meta.len == 0 && meta.mode & 0o7777 == 0o600 && meta.uid
        == owner.0 && meta.gid == owner.1
}

/// Whether two descriptions are of the same file.
pub open spec fn is_same_file(a: FileIdentity, b: FileIdentity) -> bool {
    a.dev == b.dev && a.ino == b.ino
}

fn pair_text(a: u64, b: u64) -> (r: String)
    ensures
        r@ == crate::text::decimal(a as nat) + ":"@ + crate::text::decimal(b as nat),
{
    let mut out = decimal_of(a);
    out.append(":");
    out.append(decimal_of(b).as_str());
    out
}

fn untrusted(path: &str, reason: &str) -> (r: LifecycleError)
    ensures
        r@ == (LifecycleError::Untrusted { path: path@, reason: reason@ }),
{
    LifecycleError::Untrusted { path: String::from_str(path), reason: String::from_str(reason) }
}

fn io_error(path: &str, source: &str) -> (r: LifecycleError)
    ensures
        r@ == (LifecycleError::Io { path: path@, source: source@ }),
{
    LifecycleError::Io { path: String::from_str(path), source: String::from_str(source) }
}

/// A user and a group, as a message names them.
pub open spec fn owner_text(owner: (u32, u32)) -> Seq<char> {
    crate::text::decimal(owner.0 as nat) + ":"@ + crate::text::decimal(owner.1 as nat)
}

/// Why a directory is not trusted: another owner, or another mode than 0755.
pub open spec fn dir_distrust(path: Seq<char>, meta: FileIdentity, owner: (u32, u32)) -> Option<
    ErrorView,
> {
    if (meta.uid, meta.gid) != owner {
        Some(
            LifecycleError::Untrusted {
                path,
                reason: "directory owner is "@ + owner_text((meta.uid, meta.gid)) + ", expected "@
                    + owner_text(owner),
            },
        )
    } else if permissions(meta.mode) != 0o755 {
        Some(
            LifecycleError::Untrusted {
                path,
                reason: "directory mode is "@ + crate::text::octal(permissions(meta.mode) as nat)
                    + ", expected 0755"@,
            },
        )
    } else {
        None
    }
}

/// Whether an opened directory is trusted: the expected owner and mode 0755.
pub fn open_trusted_dir(path: &str, meta: &FileIdentity, owner: (u32, u32)) -> (r: Result<
    (),
    LifecycleError,
>)
    ensures
        match r {
            Ok(_) => dir_distrust(path@, *meta, owner) is None,
            Err(e) => dir_distrust(path@, *meta, owner) == Some(e@),
        },
{
    if meta.uid != owner.0 || meta.gid != owner.1 {
        let mut reason = String::from_str("directory owner is ");
        reason.append(pair_text(meta.uid as u64, meta.gid as u64).as_str());
        reason.append(", expected ");
        reason.append(pair_text(owner.0 as u64, owner.1 as u64).as_str());
        return Err(untrusted(path, reason.as_str()));
    }
    let mode: u32 = meta.mode & 0o7777;
    if mode != 0o755 {
        let mut reason = String::from_str("directory mode is ");
        reason.append(octal_of(mode as u64).as_str());
        reason.append(", expected 0755");
        return Err(untrusted(path, reason.as_str()));
    }
    Ok(())
}

// ---------------------------------------------------------------------------
// The lock
// ---------------------------------------------------------------------------

/// How a step on a file went, with what the file then was.
#[derive(Debug, Clone, PartialEq, Eq)]
pub enum Opened<S = String> {
    /// Opened; this is what it is, after any repair of its mode.
    File(FileIdentity),
    /// It is a symbolic link, which is not followed.
    Link,
    /// There is no such file.
    Missing,
    /// Something else went wrong.
    Failed(S),
}

/// How the attempt to take the lock without waiting went.
#[derive(Debug, Clone, PartialEq, Eq)]
pub enum Locked<S = String> {
    Taken,
    Held,
    Failed(S),
}

/// What happened on the way to the lock, in order. What was not reached
/// because an earlier step failed holds anything.
#[derive(Debug, PartialEq, Eq)]
pub struct LockFacts {
    /// Creating the directory failed, other than by its being there.
    pub dir_failed: Option<String>,
    /// What the directory is, after any repair of its mode.
    pub dir: Result<FileIdentity, String>,
    /// What the lock file is, created if it was missing, after any repair of
    /// its mode.
    pub file: LockOpened,
    pub locked: Locked,
    /// What the lock's name leads to once it is taken.
    pub on_disk: Result<FileIdentity, String>,
}

/// How opening the lock file went.
#[derive(Debug, Clone, PartialEq, Eq)]
pub enum LockOpened<S = String> {
    File(FileIdentity),
    /// It is a symbolic link, which is not followed.
    Link,
    Failed(S),
}

impl View for LockOpened<String> {
    type V = LockOpened<Seq<char>>;

    open spec fn view(&self) -> LockOpened<Seq<char>> {
        match *self {
            LockOpened::File(m) => LockOpened::File(m),
            LockOpened::Link => LockOpened::Link,
            LockOpened::Failed(e) => LockOpened::Failed(e@),
        }
    }
}

impl View for Opened<String> {
    type V = Opened<Seq<char>>;

    open spec fn view(&self) -> Opened<Seq<char>> {
        match *self {
            Opened::File(m) => Opened::File(m),
            Opened::Link => Opened::Link,
            Opened::Missing => Opened::Missing,
            Opened::Failed(e) => Opened::Failed(e@),
        }
    }
}

impl View for Locked<String> {
    type V = Locked<Seq<char>>;

    open spec fn view(&self) -> Locked<Seq<char>> {
        match *self {
            Locked::Taken => Locked::Taken,
            Locked::Held => Locked::Held,
            Locked::Failed(e) => Locked::Failed(e@),
        }
    }
}

/// Why the lock directory could not be had.
pub open spec fn lock_dir_refusal(
    dir_path: Seq<char>,
    owner: (u32, u32),
    facts: LockFacts,
) -> Option<ErrorView> {
    match facts.dir_failed {
        Some(e) => Some(LifecycleError::Io { path: dir_path, source: e@ }),
        None => match facts.dir {
            Err(e) => Some(LifecycleError::Io { path: dir_path, source: e@ }),
            Ok(meta) => dir_distrust(dir_path, meta, owner),
        },
    }
}

/// Why the lock file could not be locked.
pub open spec fn lock_file_refusal(
    lock_path: Seq<char>,
    owner: (u32, u32),
    facts: LockFacts,
) -> Option<ErrorView> {
    match facts.file@ {
        LockOpened::Failed(e) => Some(LifecycleError::Io { path: lock_path, source: e }),
        LockOpened::Link => Some(
            LifecycleError::Untrusted { path: lock_path, reason: "is a symlink"@ },
        ),
        LockOpened::File(meta) => if !is_private_empty_file(meta, owner) {
            Some(
                LifecycleError::Untrusted {
                    path: lock_path,
                    reason: "is not the expected zero-byte single-link mode-0600 lock file"@,
                },
            )
        } else {
            match facts.locked@ {
                Locked::Held => Some(LifecycleError::LockHeld(lock_path)),
                Locked::Failed(e) => Some(LifecycleError::Io { path: lock_path, source: e }),
                Locked::Taken => match facts.on_disk {
                    Err(e) => Some(LifecycleError::Io { path: lock_path, source: e@ }),
                    Ok(now) => if is_same_file(now, meta) {
                        None
                    } else {
                        Some(
                            LifecycleError::Untrusted {
                                path: lock_path,
                                reason: "was replaced during acquisition"@,
                            },
                        )
                    },
                },
            }
        },
    }
}

/// Whether the lifecycle lock is held, by what happened on the way to it. Its
/// directory has to be trusted, its file exactly what it is expected to be, the
/// lock free, and its name still that of the locked file: otherwise a replaced
/// file would let two holders coexist.
pub fn acquire_lifecycle_lock(layout: &LifecycleLayout, facts: &LockFacts) -> (r: Result<
    (),
    LifecycleError,
>)
    ensures
        ({
            let dir_path = crate::paths::join_path(layout.root(), "run/facelock"@);
            let lock_path = crate::paths::join_path(
                layout.root(),
                "run/facelock/lifecycle.lock"@,
            );
            match r {
                Ok(_) => {
                    &&& lock_dir_refusal(dir_path, layout.owner(), *facts) is None
                    &&& lock_file_refusal(lock_path, layout.owner(), *facts) is None
                },
                Err(e) => match lock_dir_refusal(dir_path, layout.owner(), *facts) {
                    Some(why) => e@ == why,
                    None => lock_file_refusal(lock_path, layout.owner(), *facts) == Some(e@),
                },
            }
        }),
{
    let dir_path = layout.lock_dir();
    let owner = layout.expected_owner();
    if let Some(e) = &facts.dir_failed {
        return Err(io_error(dir_path.as_str(), e.as_str()));
    }
    match &facts.dir {
        Err(e) => {
            return Err(io_error(dir_path.as_str(), e.as_str()));
        },
        Ok(meta) => match open_trusted_dir(dir_path.as_str(), meta, owner) {
            Err(e) => {
                return Err(e);
            },
            Ok(_) => {},
        },
    }
    let lock_path = layout.lock_path();
    match &facts.file {
        LockOpened::Failed(e) => Err(io_error(lock_path.as_str(), e.as_str())),
        LockOpened::Link => Err(untrusted(lock_path.as_str(), "is a symlink")),
        LockOpened::File(meta) => {
            if !private_empty_file(meta, owner) {
                return Err(
                    untrusted(
                        lock_path.as_str(),
                        "is not the expected zero-byte single-link mode-0600 lock file",
                    ),
                );
            }
            match &facts.locked {
                Locked::Held => Err(LifecycleError::LockHeld(lock_path)),
                Locked::Failed(e) => Err(io_error(lock_path.as_str(), e.as_str())),
                Locked::Taken => match &facts.on_disk {
                    Ok(now) => if now.dev == meta.dev && now.ino == meta.ino {
                        Ok(())
                    } else {
                        Err(untrusted(lock_path.as_str(), "was replaced during acquisition"))
                    },
                    Err(e) => Err(io_error(lock_path.as_str(), e.as_str())),
                },
            }
        },
    }
}

// ---------------------------------------------------------------------------
// Activation definitions
// ---------------------------------------------------------------------------

/// What is at one place of an activation definition: how opening it went, and
/// what reading its text gave.
#[derive(Debug, PartialEq, Eq)]
pub struct DefinitionFacts {
    pub opened: Opened,
    pub text: Result<String, String>,
}

/// Why an activation definition stands in the way. One that is not there does
/// not.
pub open spec fn definition_refusal(
    path: Seq<char>,
    owner: (u32, u32),
    facts: DefinitionFacts,
) -> Option<ErrorView> {
    match facts.opened@ {
        Opened::Missing => None,
        Opened::Link => Some(LifecycleError::Untrusted { path, reason: "is a symlink"@ }),
        Opened::Failed(e) => Some(LifecycleError::Io { path, source: e }),
        Opened::File(meta) => if !meta.is_file {
            Some(LifecycleError::Untrusted { path, reason: "is not a regular file"@ })
        } else if (meta.uid, meta.gid) != owner {
            Some(LifecycleError::Untrusted { path, reason: "has an unexpected owner"@ })
        } else if meta.mode & 0o022 != 0 {
            Some(LifecycleError::Untrusted { path, reason: "is group- or world-writable"@ })
        } else if meta.len > ACTIVATION_MAX_BYTES {
            Some(LifecycleError::Untrusted { path, reason: "is larger than 64 KiB"@ })
        } else {
            match facts.text {
                Err(e) => Some(LifecycleError::Io { path, source: e@ }),
                Ok(text) => match crate::lifecycle::activation::refusal(text@) {
                    Some(reason) => Some(LifecycleError::ActivationNotDelegated { path, reason }),
                    None => None,
                },
            }
        },
    }
}

/// The first activation definition that stands in the way.
pub open spec fn first_refusal(
    paths: Seq<Seq<char>>,
    owner: (u32, u32),
    facts: Seq<DefinitionFacts>,
) -> Option<ErrorView>
    decreases paths.len(),
{
    if paths.len() == 0 || facts.len() == 0 {
        None
    } else {
        match definition_refusal(paths[0], owner, facts[0]) {
            Some(e) => Some(e),
            None => first_refusal(paths.skip(1), owner, facts.skip(1)),
        }
    }
}

/// Whether one activation definition, if it is there, is trusted and delegates
/// to systemd.
pub fn verify_definition(path: &str, owner: (u32, u32), facts: &DefinitionFacts) -> (r: Result<
    (),
    LifecycleError,
>)
    ensures
        match r {
            Ok(_) => definition_refusal(path@, owner, *facts) is None,
            Err(e) => definition_refusal(path@, owner, *facts) == Some(e@),
        },
{
    match &facts.opened {
        Opened::Missing => Ok(()),
        Opened::Link => Err(untrusted(path, "is a symlink")),
        Opened::Failed(e) => Err(io_error(path, e.as_str())),
        Opened::File(meta) => {
            if !meta.is_file {
                return Err(untrusted(path, "is not a regular file"));
            }
            if meta.uid != owner.0 || meta.gid != owner.1 {
                return Err(untrusted(path, "has an unexpected owner"));
            }
            if meta.mode & 0o022 != 0 {
                return Err(untrusted(path, "is group- or world-writable"));
            }
            if meta.len > ACTIVATION_MAX_BYTES {
                return Err(untrusted(path, "is larger than 64 KiB"));
            }
            match &facts.text {
                Err(e) => Err(io_error(path, e.as_str())),
                Ok(text) => match activation_delegates(text.as_str()) {
                    Ok(_) => Ok(()),
                    Err(reason) => Err(
                        LifecycleError::ActivationNotDelegated {
                            path: String::from_str(path),
                            reason,
                        },
                    ),
                },
            }
        },
    }
}

/// Every activation definition that is there has to be trusted and to delegate
/// to systemd: a single one that does not would defeat the mask.
pub fn verify_activation_delegation(
    layout: &LifecycleLayout,
    facts: &Vec<DefinitionFacts>,
) -> (r: Result<(), LifecycleError>)
    requires
        facts.len() == 5,
    ensures
        ({
            let paths = crate::lifecycle::layout::activation_places().map_values(
                |p: Seq<char>| crate::paths::join_path(layout.root(), p),
            );
            match r {
                Ok(_) => first_refusal(paths, layout.owner(), facts@) is None,
                Err(e) => first_refusal(paths, layout.owner(), facts@) == Some(e@),
            }
        }),
{
    let paths = layout.activation_definition_paths();
    let owner = layout.expected_owner();
    let ghost all = crate::text::texts(paths@);
    let mut i: usize = 0;
    assert(all.len() == 5);
    assert(all.skip(0) == all && facts@.skip(0) == facts@);
    while i < paths.len()
        invariant
            i <= paths.len(),
            facts.len() == paths.len(),
            all == crate::text::texts(paths@),
            all == crate::lifecycle::layout::activation_places().map_values(
                |p: Seq<char>| crate::paths::join_path(layout.root(), p),
            ),
            owner == layout.owner(),
            first_refusal(all, owner, facts@) == first_refusal(
                all.skip(i as int),
                owner,
                facts@.skip(i as int),
            ),
        decreases paths.len() - i,
    {
        assert(all.skip(i as int)[0] == paths[i as int]@);
        assert(all.skip(i as int).skip(1) == all.skip(i as int + 1));
        assert(facts@.skip(i as int).skip(1) == facts@.skip(i as int + 1));
        match verify_definition(paths[i].as_str(), owner, &facts[i]) {
            Err(e) => {
                return Err(e);
            },
            Ok(_) => {},
        }
        i += 1;
    }
    Ok(())
}

// ---------------------------------------------------------------------------
// The barrier
// ---------------------------------------------------------------------------

/// What is at the barrier's path.
#[derive(Debug, Clone, Copy, PartialEq, Eq, Structural)]
pub enum ControlEntry {
    Absent,
    /// Exactly a barrier, left by an interrupted operation. It is adopted: the
    /// held lock shows that nobody else holds it.
    Stale,
}

/// Why what is at the barrier's path is in the way, or what it is.
pub open spec fn control_answer(path: Seq<char>, owner: (u32, u32), opened: Opened<Seq<char>>) -> Result<
    ControlEntry,
    ErrorView,
> {
    match opened {
        Opened::Missing => Ok(ControlEntry::Absent),
        Opened::Link => Err(
            LifecycleError::ControlPathConflict { path, reason: "it is a symlink"@ },
        ),
        Opened::Failed(e) => Err(LifecycleError::Io { path, source: e }),
        Opened::File(meta) => if is_private_empty_file(meta, owner) {
            Ok(ControlEntry::Stale)
        } else {
            Err(
                LifecycleError::ControlPathConflict {
                    path,
                    reason: "found "@ + (if meta.is_file {
                        "a regular file"@
                    } else {
                        "a non-regular object"@
                    }) + " of "@ + crate::text::decimal(meta.len as nat) + " bytes, mode "@
                        + crate::text::octal(permissions(meta.mode) as nat) + ", owner "@
                        + owner_text((meta.uid, meta.gid)),
                },
            )
        },
    }
}

/// What is at the barrier's path: nothing, a stale barrier to adopt, or
/// something else, which is left alone and reported.
pub fn probe_control_path(layout: &LifecycleLayout, opened: &Opened) -> (r: Result<
    ControlEntry,
    LifecycleError,
>)
    ensures
        ({
            let path = crate::paths::join_path(
                layout.root(),
                "run/systemd/system.control/facelock-daemon.service"@,
            );
            match r {
                Ok(entry) => control_answer(path, layout.owner(), opened@) == Ok::<
                    ControlEntry,
                    ErrorView,
                >(entry),
                Err(e) => control_answer(path, layout.owner(), opened@) == Err::<
                    ControlEntry,
                    ErrorView,
                >(e@),
            }
        }),
{
    let path = layout.barrier_path();
    let owner = layout.expected_owner();
    match opened {
        Opened::Missing => Ok(ControlEntry::Absent),
        Opened::Link => Err(
            LifecycleError::ControlPathConflict {
                path,
                reason: String::from_str("it is a symlink"),
            },
        ),
        Opened::Failed(e) => Err(io_error(path.as_str(), e.as_str())),
        Opened::File(meta) => {
            if private_empty_file(meta, owner) {
                return Ok(ControlEntry::Stale);
            }
            let mut reason = String::from_str("found ");
            reason.append(
                if meta.is_file {
                    "a regular file"
                } else {
                    "a non-regular object"
                },
            );
            reason.append(" of ");
            reason.append(decimal_of(meta.len).as_str());
            reason.append(" bytes, mode ");
            let mode: u32 = meta.mode & 0o7777;
            reason.append(octal_of(mode as u64).as_str());
            reason.append(", owner ");
            reason.append(pair_text(meta.uid as u64, meta.gid as u64).as_str());
            Err(LifecycleError::ControlPathConflict { path, reason })
        },
    }
}

/// How creating the barrier went: something was there already, something else
/// went wrong, or this is what was created.
#[derive(Debug, Clone, PartialEq, Eq)]
pub enum Created<S = String> {
    File(FileIdentity),
    Occupied,
    Failed(S),
}

impl View for Created<String> {
    type V = Created<Seq<char>>;

    open spec fn view(&self) -> Created<Seq<char>> {
        match *self {
            Created::File(m) => Created::File(m),
            Created::Occupied => Created::Occupied,
            Created::Failed(e) => Created::Failed(e@),
        }
    }
}

/// Why the created barrier is none.
pub open spec fn barrier_refusal(
    path: Seq<char>,
    owner: (u32, u32),
    created: Created<Seq<char>>,
) -> Option<ErrorView> {
    match created {
        Created::Occupied => Some(
            LifecycleError::ControlPathConflict {
                path,
                reason: "it appeared while the barrier was being created"@,
            },
        ),
        Created::Failed(e) => Some(LifecycleError::Io { path, source: e }),
        Created::File(meta) => if is_private_empty_file(meta, owner) {
            None
        } else {
            Some(
                LifecycleError::Untrusted { path, reason: "created barrier lost its identity"@ },
            )
        },
    }
}

/// Whether the barrier was created, and is what it has to be. Nothing that was
/// there before is ever replaced.
pub fn create_barrier(layout: &LifecycleLayout, created: &Created) -> (r: Result<
    (),
    LifecycleError,
>)
    ensures
        ({
            let path = crate::paths::join_path(
                layout.root(),
                "run/systemd/system.control/facelock-daemon.service"@,
            );
            match r {
                Ok(_) => barrier_refusal(path, layout.owner(), created@) is None,
                Err(e) => barrier_refusal(path, layout.owner(), created@) == Some(e@),
            }
        }),
{
    let path = layout.barrier_path();
    match created {
        Created::Occupied => Err(
            LifecycleError::ControlPathConflict {
                path,
                reason: String::from_str("it appeared while the barrier was being created"),
            },
        ),
        Created::Failed(e) => Err(io_error(path.as_str(), e.as_str())),
        Created::File(meta) => if private_empty_file(meta, layout.expected_owner()) {
            Ok(())
        } else {
            Err(untrusted(path.as_str(), "created barrier lost its identity"))
        },
    }
}

/// What to do about the barrier when it is to be removed.
#[derive(Debug, Clone, PartialEq, Eq)]
pub enum Removal {
    /// It is gone already.
    Gone,
    /// It is still the file that is held: unlink it.
    Unlink,
    /// Leave it in place, and report why.
    Refuse(String),
}

/// What to do about the barrier, with a sequence in place of the string.
pub enum RemovalView {
    Gone,
    Unlink,
    Refuse(Seq<char>),
}

impl View for Removal {
    type V = RemovalView;

    open spec fn view(&self) -> RemovalView {
        match *self {
            Removal::Gone => RemovalView::Gone,
            Removal::Unlink => RemovalView::Unlink,
            Removal::Refuse(m) => RemovalView::Refuse(m@),
        }
    }
}

/// What to do about the barrier.
pub open spec fn removal_of(
    path: Seq<char>,
    held: Result<FileIdentity, String>,
    on_disk: Result<Option<FileIdentity>, String>,
) -> RemovalView {
    match (held, on_disk) {
        (Err(e), _) => RemovalView::Refuse(path + ": "@ + e@),
        (Ok(_), Err(e)) => RemovalView::Refuse(path + ": "@ + e@),
        (Ok(_), Ok(None)) => RemovalView::Gone,
        (Ok(h), Ok(Some(d))) => if is_same_file(h, d) {
            RemovalView::Unlink
        } else {
            RemovalView::Refuse(path + " was replaced while the lease was held; left in place"@)
        },
    }
}

/// What to do about the barrier, by what the held file is and what its name
/// leads to, if anything. A file that took its place is left there and
/// reported.
pub fn remove_barrier(
    path: &str,
    held: &Result<FileIdentity, String>,
    on_disk: &Result<Option<FileIdentity>, String>,
) -> (r: Removal)
    ensures
        r@ == removal_of(path@, *held, *on_disk),
{
    let mut m = String::from_str(path);
    match held {
        Err(e) => {
            m.append(": ");
            m.append(e.as_str());
            Removal::Refuse(m)
        },
        Ok(h) => match on_disk {
            Err(e) => {
                m.append(": ");
                m.append(e.as_str());
                Removal::Refuse(m)
            },
            Ok(None) => Removal::Gone,
            Ok(Some(d)) => if d.dev == h.dev && d.ino == h.ino {
                Removal::Unlink
            } else {
                m.append(" was replaced while the lease was held; left in place");
                Removal::Refuse(m)
            },
        },
    }
}

// ---------------------------------------------------------------------------
// Laws
// ---------------------------------------------------------------------------

/// An adopted barrier and a created one are the same kind of file as the lock.
pub proof fn law_adopted_and_created_barriers_are_alike(
    path: Seq<char>,
    owner: (u32, u32),
    meta: FileIdentity,
)
    ensures
        control_answer(path, owner, Opened::File(meta)) is Ok <==> barrier_refusal(
            path,
            owner,
            Created::File(meta),
        ) is None,
{
}

/// What the lock and the barrier have to be: a regular file of one name, empty,
/// readable and writable by its owner alone, and of the expected owner.
pub proof fn law_the_lock_is_a_private_empty_file(meta: FileIdentity, owner: (u32, u32))
    ensures
        is_private_empty_file(meta, owner) <==> {
            &&& meta.is_file
            &&& meta.links == 1
            &&& meta.len == 0
            &&& meta.mode & 0o7777 == 0o600
            &&& meta.uid == owner.0
            &&& meta.gid == owner.1
        },
{
}

/// Two files are one exactly if both the device and the number are the same.
pub proof fn law_a_file_is_its_device_and_number(a: FileIdentity, b: FileIdentity)
    ensures
        is_same_file(a, b) <==> a.dev == b.dev && a.ino == b.ino,
{
}

/// A directory is trusted exactly if it has the expected owner and nobody else may
/// write to it: mode 0755.
pub proof fn law_a_trusted_directory_has_one_writer(
    path: Seq<char>,
    meta: FileIdentity,
    owner: (u32, u32),
)
    ensures
        dir_distrust(path, meta, owner) is None <==> meta.uid == owner.0 && meta.gid == owner.1
            && meta.mode & 0o7777 == 0o755,
        dir_distrust(path, meta, owner) matches Some(e) ==> (e matches LifecycleError::Untrusted {
            path: p,
            ..
        } && p == path),
{
}

/// The lock is had exactly if its directory could be made and is trusted, its file
/// is what it has to be, nobody else holds it, and its name still leads to it.
pub proof fn law_the_lock_is_had_only_exclusively(
    dir_path: Seq<char>,
    lock_path: Seq<char>,
    owner: (u32, u32),
    facts: LockFacts,
)
    ensures
        lock_dir_refusal(dir_path, owner, facts) is None <==> facts.dir_failed is None && (
        facts.dir matches Ok(meta) && dir_distrust(dir_path, meta, owner) is None),
        lock_file_refusal(lock_path, owner, facts) is None <==> {
            &&& facts.file@ matches LockOpened::File(meta) && is_private_empty_file(meta, owner)
                && (facts.on_disk matches Ok(now) && now.dev == meta.dev && now.ino == meta.ino)
            &&& facts.locked@ is Taken
        },
        (facts.file@ matches LockOpened::File(meta) && is_private_empty_file(meta, owner))
            && facts.locked@ is Held ==> lock_file_refusal(lock_path, owner, facts) == Some(
            LifecycleError::LockHeld(lock_path),
        ),
{
}

/// A definition that is there stands in nobody's way exactly if it is a regular
/// file of the expected owner that nobody else may write to, is no larger than 64
/// KiB, could be read, and delegates to systemd.
pub proof fn law_a_trusted_definition_delegates(
    path: Seq<char>,
    owner: (u32, u32),
    facts: DefinitionFacts,
)
    ensures
        definition_refusal(path, owner, facts) is None <==> facts.opened@ is Missing || ((
        facts.opened@ matches Opened::File(meta) && meta.is_file && meta.uid == owner.0 && meta.gid
            == owner.1 && meta.mode & 0o022 == 0 && meta.len <= 65536) && (facts.text matches Ok(
            text,
        ) && crate::lifecycle::activation::refusal(text@) is None)),
        definition_refusal(path, owner, facts) matches Some(
            LifecycleError::ActivationNotDelegated { path: p, reason },
        ) ==> p == path && (facts.text matches Ok(text) && crate::lifecycle::activation::refusal(
            text@,
        ) == Some(reason)),
{
}

/// What is at the barrier's path is adopted exactly if it is what a barrier is;
/// nothing there is nothing; and anything else is left alone and reported.
pub proof fn law_only_a_barrier_is_adopted(
    path: Seq<char>,
    owner: (u32, u32),
    opened: Opened<Seq<char>>,
)
    ensures
        control_answer(path, owner, opened) == Ok::<ControlEntry, ErrorView>(ControlEntry::Stale)
            <==> (opened matches Opened::File(meta) && is_private_empty_file(meta, owner)),
        control_answer(path, owner, opened) == Ok::<ControlEntry, ErrorView>(ControlEntry::Absent)
            <==> opened is Missing,
        opened is Link ==> (control_answer(path, owner, opened) matches Err(
            LifecycleError::ControlPathConflict { .. },
        )),
        barrier_refusal(path, owner, Created::Occupied) is Some,
{
}

/// Only the file that is held is ever unlinked; a name that leads nowhere any more
/// is no trouble; and whatever else is there stays, and is reported by its path.
pub proof fn law_only_the_held_barrier_is_unlinked(
    path: Seq<char>,
    held: Result<FileIdentity, String>,
    on_disk: Result<Option<FileIdentity>, String>,
)
    ensures
        removal_of(path, held, on_disk) is Unlink <==> (held matches Ok(h) && (on_disk matches Ok(
            Some(d),
        ) && h.dev == d.dev && h.ino == d.ino)),
        removal_of(path, held, on_disk) is Gone <==> held is Ok && (on_disk matches Ok(None)),
        removal_of(path, held, on_disk) matches RemovalView::Refuse(m) ==> m.len() > path.len()
            && m.take(path.len() as int) == path,
{
    reveal_strlit(": ");
    reveal_strlit(" was replaced while the lease was held; left in place");
    if let RemovalView::Refuse(m) = removal_of(path, held, on_disk) {
        assert(m.take(path.len() as int) =~= path);
    }
}

/// The refusal that is reported is that of the first definition in the way.
pub proof fn law_the_first_definition_in_the_way_is_reported(
    paths: Seq<Seq<char>>,
    owner: (u32, u32),
    facts: Seq<DefinitionFacts>,
    i: int,
)
    requires
        paths.len() == facts.len(),
        0 <= i < paths.len(),
        definition_refusal(paths[i], owner, facts[i]) is Some,
        forall|j: int|
            0 <= j < i ==> definition_refusal(#[trigger] paths[j], owner, facts[j]) is None,
    ensures
        first_refusal(paths, owner, facts) == definition_refusal(paths[i], owner, facts[i]),
    decreases i,
{
    if i > 0 {
        let p = paths.skip(1);
        let f = facts.skip(1);
        assert(p[i - 1] == paths[i] && f[i - 1] == facts[i]);
        assert(definition_refusal(paths[0], owner, facts[0]) is None);
        assert forall|j: int| 0 <= j < i - 1 implies definition_refusal(
            #[trigger] p[j],
            owner,
            f[j],
        ) is None by {
            assert(p[j] == paths[j + 1] && f[j] == facts[j + 1]);
        }
        law_the_first_definition_in_the_way_is_reported(p, owner, f, i - 1);
    }
}

/// A definition that is absent everywhere stands in nobody's way.
pub proof fn law_absent_definitions_are_fine(
    paths: Seq<Seq<char>>,
    owner: (u32, u32),
    facts: Seq<DefinitionFacts>,
)
    requires
        forall|i: int| 0 <= i < facts.len() ==> (#[trigger] facts[i]).opened@ is Missing,
    ensures
        first_refusal(paths, owner, facts) is None,
    decreases paths.len(),
{
    if paths.len() > 0 && facts.len() > 0 {
        assert(facts[0].opened@ is Missing);
        let rest = facts.skip(1);
        assert forall|i: int| 0 <= i < rest.len() implies (
        #[trigger] rest[i]).opened@ is Missing by {
            assert(rest[i] == facts[i + 1]);
        }
        law_absent_definitions_are_fine(paths.skip(1), owner, rest);
    }
}

/// One definition that does not delegate is enough to refuse, wherever it is.
pub proof fn law_one_direct_definition_refuses(
    paths: Seq<Seq<char>>,
    owner: (u32, u32),
    facts: Seq<DefinitionFacts>,
    i: int,
)
    requires
        paths.len() == facts.len(),
        0 <= i < paths.len(),
        definition_refusal(paths[i], owner, facts[i]) is Some,
    ensures
        first_refusal(paths, owner, facts) is Some,
    decreases i,
{
    if i > 0 {
        assert(paths.skip(1)[i - 1] == paths[i]);
        assert(facts.skip(1)[i - 1] == facts[i]);
        law_one_direct_definition_refuses(paths.skip(1), owner, facts.skip(1), i - 1);
    }
}

} // verus!
