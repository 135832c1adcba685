//! The replacement of a service file: a new file beside it takes its name, so
//! that no reader ever sees half of one.
//!
//! The steps alternate with the outside work that they name.

use crate::text::decimal_of;
use vstd::prelude::*;
use vstd::string::*;

verus! {

/// The next piece of work.
#[derive(Debug, Clone, Copy, PartialEq, Eq, Structural)]
pub enum ReplaceStep {
    /// Create the new file, which must not exist, with the model's mode.
    Create,
    Write,
    /// Set the mode again: the process's mask may have narrowed it.
    SetMode,
    /// Look at whom the new file belongs to.
    Inspect,
    /// Give it to the model's owner.
    Chown,
    /// Copy the security label, if there is one. A failure does not count.
    Label,
    /// Have the file reach the disk.
    Sync,
    /// Give the new file the service file's name.
    Rename,
    /// Have the directory reach the disk. A failure does not count.
    SyncDirectory,
    /// Remove the new file. A failure does not count.
    RemoveTemporary,
    /// The service file is the new one.
    Replaced,
    /// The service file is as it was.
    Failed,
}

/// The owner and the mode of a file.
#[derive(Debug, Clone, Copy, PartialEq, Eq, Structural)]
pub struct FileModel {
    pub mode: u32,
    pub uid: u32,
    pub gid: u32,
}

/// The name of the new file: hidden, and of this process and instant alone.
pub open spec fn temporary_name(name: Seq<char>, process: u32, instant: Seq<char>) -> Seq<char> {
    "."@ + name + ".facelock-"@ + crate::text::decimal(process as nat) + "-"@ + instant
}

/// The name of the new file.
pub fn temp_name(name: &str, process: u32, instant: &str) -> (r: String)
    ensures
        r@ == temporary_name(name@, process, instant@),
{
    let mut temp = String::from_str(".");
    temp.append(name);
    temp.append(".facelock-");
    temp.append(decimal_of(process as u64).as_str());
    temp.append("-");
    temp.append(instant);
    temp
}

/// What follows a piece of work. `done` says that it succeeded, and
/// `owner_differs` that the new file belongs to someone else than the model.
pub open spec fn follows(step: ReplaceStep, done: bool, owner_differs: bool) -> ReplaceStep {
    match step {
        ReplaceStep::Label => ReplaceStep::Sync,
        ReplaceStep::SyncDirectory => ReplaceStep::Replaced,
        ReplaceStep::RemoveTemporary => ReplaceStep::Failed,
        ReplaceStep::Replaced => ReplaceStep::Replaced,
        ReplaceStep::Failed => ReplaceStep::Failed,
        _ => if !done {
            ReplaceStep::RemoveTemporary
        } else {
            match step {
                ReplaceStep::Create => ReplaceStep::Write,
                ReplaceStep::Write => ReplaceStep::SetMode,
                ReplaceStep::SetMode => ReplaceStep::Inspect,
                ReplaceStep::Inspect => if owner_differs {
                    ReplaceStep::Chown
                } else {
                    ReplaceStep::Label
                },
                ReplaceStep::Chown => ReplaceStep::Label,
                ReplaceStep::Sync => ReplaceStep::Rename,
                _ => ReplaceStep::SyncDirectory,
            }
        },
    }
}

/// What follows a piece of work.
pub fn next_step(step: ReplaceStep, done: bool, owner_differs: bool) -> (r: ReplaceStep)
    ensures
        r == follows(step, done, owner_differs),
{
    match step {
        ReplaceStep::Label => ReplaceStep::Sync,
        ReplaceStep::SyncDirectory => ReplaceStep::Replaced,
        ReplaceStep::RemoveTemporary => ReplaceStep::Failed,
        ReplaceStep::Replaced => ReplaceStep::Replaced,
        ReplaceStep::Failed => ReplaceStep::Failed,
        _ => {
            if !done {
                return ReplaceStep::RemoveTemporary;
            }
            match step {
                ReplaceStep::Create => ReplaceStep::Write,
                ReplaceStep::Write => ReplaceStep::SetMode,
                ReplaceStep::SetMode => ReplaceStep::Inspect,
                ReplaceStep::Inspect => if owner_differs {
                    ReplaceStep::Chown
                } else {
                    ReplaceStep::Label
                },
                ReplaceStep::Chown => ReplaceStep::Label,
                ReplaceStep::Sync => ReplaceStep::Rename,
                _ => ReplaceStep::SyncDirectory,
            }
        },
    }
}

/// Whether the new file belongs to someone else than the model.
pub open spec fn is_foreign(model: FileModel, created: FileModel) -> bool {
    model.uid != created.uid || model.gid != created.gid
}

/// Whether the new file belongs to someone else than the model.
pub fn owner_differs(model: &FileModel, created: &FileModel) -> (r: bool)
    ensures
        r == is_foreign(*model, *created),
{
    model.uid != created.uid || model.gid != created.gid
}

// ---------------------------------------------------------------------------
// Laws
// ---------------------------------------------------------------------------

/// The step after so many pieces of work, which of them succeed being given by
/// `done`.
pub open spec fn reached(done: spec_fn(ReplaceStep) -> bool, differs: bool, n: nat) -> ReplaceStep
    decreases n,
{
    if n == 0 {
        ReplaceStep::Create
    } else {
        let step = reached(done, differs, (n - 1) as nat);
        follows(step, done(step), differs)
    }
}

/// Whether the new file is whole: written, with its mode, its owner, and on the
/// disk.
pub open spec fn is_whole(done: spec_fn(ReplaceStep) -> bool, differs: bool) -> bool {
    &&& done(ReplaceStep::Create)
    &&& done(ReplaceStep::Write)
    &&& done(ReplaceStep::SetMode)
    &&& done(ReplaceStep::Inspect)
    &&& differs ==> done(ReplaceStep::Chown)
    &&& done(ReplaceStep::Sync)
}

proof fn lemma_progress(done: spec_fn(ReplaceStep) -> bool, differs: bool, n: nat)
    ensures
        match reached(done, differs, n) {
            ReplaceStep::Create => true,
            ReplaceStep::Write => done(ReplaceStep::Create),
            ReplaceStep::SetMode => done(ReplaceStep::Create) && done(ReplaceStep::Write),
            ReplaceStep::Inspect => done(ReplaceStep::Create) && done(ReplaceStep::Write) && done(
                ReplaceStep::SetMode,
            ),
            ReplaceStep::Chown => done(ReplaceStep::Create) && done(ReplaceStep::Write) && done(
                ReplaceStep::SetMode,
            ) && done(ReplaceStep::Inspect) && differs,
            ReplaceStep::Label | ReplaceStep::Sync => done(ReplaceStep::Create) && done(
                ReplaceStep::Write,
            ) && done(ReplaceStep::SetMode) && done(ReplaceStep::Inspect) && (differs ==> done(
                ReplaceStep::Chown,
            )),
            ReplaceStep::Rename => is_whole(done, differs),
            ReplaceStep::SyncDirectory | ReplaceStep::Replaced => is_whole(done, differs) && done(
                ReplaceStep::Rename,
            ),
            ReplaceStep::RemoveTemporary | ReplaceStep::Failed => !(is_whole(done, differs)
                && done(ReplaceStep::Rename)),
        },
    decreases n,
{
    if n > 0 {
        lemma_progress(done, differs, (n - 1) as nat);
    }
}

/// The service file's name goes to the new file only once that is whole.
pub proof fn law_only_a_whole_file_takes_the_name(
    done: spec_fn(ReplaceStep) -> bool,
    differs: bool,
    n: nat,
)
    ensures
        reached(done, differs, n) == ReplaceStep::Rename ==> is_whole(done, differs),
        reached(done, differs, n) == ReplaceStep::Replaced ==> is_whole(done, differs) && done(
            ReplaceStep::Rename,
        ),
{
    lemma_progress(done, differs, n);
}

/// The pieces of work of a replacement that goes well, in order: the new file is
/// given to its owner only where it belongs to someone else, and neither the label
/// nor the directory's reaching the disk has to succeed.
pub proof fn law_the_work_is_done_in_order(done: spec_fn(ReplaceStep) -> bool, differs: bool)
    requires
        is_whole(done, differs),
        done(ReplaceStep::Rename),
    ensures
        reached(done, differs, 0) == ReplaceStep::Create,
        reached(done, differs, 1) == ReplaceStep::Write,
        reached(done, differs, 2) == ReplaceStep::SetMode,
        reached(done, differs, 3) == ReplaceStep::Inspect,
        differs ==> reached(done, differs, 4) == ReplaceStep::Chown,
        ({
            let n: nat = if differs {
                5
            } else {
                4
            };
            &&& reached(done, differs, n) == ReplaceStep::Label
            &&& reached(done, differs, n + 1) == ReplaceStep::Sync
            &&& reached(done, differs, n + 2) == ReplaceStep::Rename
            &&& reached(done, differs, n + 3) == ReplaceStep::SyncDirectory
            &&& reached(done, differs, n + 4) == ReplaceStep::Replaced
        }),
{
    reveal_with_fuel(reached, 10);
}

/// The first piece of work that fails is the last on the new file but for its
/// removal.
pub proof fn law_a_failure_removes_the_new_file(step: ReplaceStep, differs: bool)
    requires
        step is Create || step is Write || step is SetMode || step is Inspect || step is Chown
            || step is Sync || step is Rename,
    ensures
        follows(step, false, differs) == ReplaceStep::RemoveTemporary,
        follows(follows(step, false, differs), true, differs) == ReplaceStep::Failed,
        follows(follows(step, false, differs), false, differs) == ReplaceStep::Failed,
{
}

/// The new file is given away exactly if its user or its group is not the model's;
/// the mode has no part in it.
pub proof fn law_owners_are_users_and_groups(model: FileModel, created: FileModel, mode: u32)
    ensures
        !is_foreign(model, created) <==> model.uid == created.uid && model.gid == created.gid,
        is_foreign(model, FileModel { mode, ..created }) == is_foreign(model, created),
        !is_foreign(model, FileModel { mode, ..model }),
{
}

/// The new file is hidden, stands beside the service file, and is never the service
/// file itself.
pub proof fn law_the_new_file_stands_beside_the_old(
    name: Seq<char>,
    process: u32,
    instant: Seq<char>,
)
    requires
        !name.contains('/'),
        !instant.contains('/'),
    ensures
        temporary_name(name, process, instant)[0] == '.',
        !temporary_name(name, process, instant).contains('/'),
        temporary_name(name, process, instant) != name,
{
    reveal_strlit(".");
    reveal_strlit(".facelock-");
    reveal_strlit("-");
    let temp = temporary_name(name, process, instant);
    let digits = crate::text::decimal(process as nat);
    crate::text::law_decimal_reads_back(process as nat);
    assert(temp.len() > name.len());
    if temp.contains('/') {
        let k = choose|k: int| 0 <= k < temp.len() && temp[k] == '/';
        let a = 1 + name.len();
        let b = a + 10;
        let c = b + digits.len();
        if k == 0 {
        } else if k < a {
            assert(name[k - 1] == '/');
        } else if k < b {
            assert(".facelock-"@[k - a] == '/');
        } else if k < c {
            assert(digits[k - b] == '/');
            assert(crate::text::is_digit(digits[k - b]));
        } else if k > c {
            assert(instant[k - c - 1] == '/');
        }
    }
}

/// Every replacement ends: with the new file in place if each piece of work that
/// counts succeeded, and otherwise with the old one in place and the new one
/// removed.
pub proof fn law_every_replacement_ends(done: spec_fn(ReplaceStep) -> bool, differs: bool)
    ensures
        reached(done, differs, 9) == if is_whole(done, differs) && done(ReplaceStep::Rename) {
            ReplaceStep::Replaced
        } else {
            ReplaceStep::Failed
        },
        reached(done, differs, 9) == ReplaceStep::Failed ==> exists|n: nat|
            n < 9 && #[trigger] reached(done, differs, n) == ReplaceStep::RemoveTemporary,
{
    reveal_with_fuel(reached, 10);
    lemma_progress(done, differs, 9);
    let s0 = reached(done, differs, 0);
    let s1 = reached(done, differs, 1);
    let s2 = reached(done, differs, 2);
    let s3 = reached(done, differs, 3);
    let s4 = reached(done, differs, 4);
    let s5 = reached(done, differs, 5);
    let s6 = reached(done, differs, 6);
    let s7 = reached(done, differs, 7);
    let s8 = reached(done, differs, 8);
    assert(s1 == follows(s0, done(s0), differs));
    assert(s2 == follows(s1, done(s1), differs));
    assert(s3 == follows(s2, done(s2), differs));
    assert(s4 == follows(s3, done(s3), differs));
    assert(s5 == follows(s4, done(s4), differs));
    assert(s6 == follows(s5, done(s5), differs));
    assert(s7 == follows(s6, done(s6), differs));
    assert(s8 == follows(s7, done(s7), differs));
}

} // verus!
