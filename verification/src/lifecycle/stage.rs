//! Taking a lease and giving it back: the order of its steps, what each
//! observation allows, and what is undone.

use crate::lifecycle::identity::ControlEntry;
use crate::lifecycle::layout::{
    AcquireTuning, ErrorView, LifecycleError, LifecycleLayout, UNIT_NAME,
};
use crate::lifecycle::unit::{admissible, UnitProperties};
use crate::text::{joined, same};
use vstd::prelude::*;
use vstd::string::*;

verus! {

/// What is to be done next on the way to a lease.
#[derive(Debug, Clone, Copy, PartialEq, Eq, Structural)]
pub enum StageStep {
    /// Show that every activation definition delegates to systemd.
    VerifyDelegation,
    /// See what is at the barrier's path.
    ProbeControl,
    /// Ask for the unit's state before anything is changed.
    RecordUnit,
    /// Create the barrier.
    CreateBarrier,
    /// Make systemd read its units again.
    Reload,
    /// Ask whether the unit is masked now.
    ProveMasked,
    /// Stop the daemon.
    Stop,
    /// Ask whether the unit is inactive; again after a pause if need be.
    AwaitInactive,
    /// Ask whether the bus name is free; again after a pause if need be.
    AwaitName,
    /// The lease is held.
    Held,
}

/// What has been changed and recorded so far. Whatever fails, this is what has
/// to be undone.
#[derive(Debug, Clone, PartialEq, Eq)]
pub struct Staged {
    /// A stale barrier was found.
    pub adopted: bool,
    /// The barrier is ours to remove.
    pub barrier: bool,
    /// The daemon is ours to start again.
    pub restart: bool,
    /// The daemon was running.
    pub was_active: bool,
    /// The unit's enablement, which is never changed.
    pub unit_file_state: String,
}

/// A step, or why the lease is refused.
pub open spec fn step_view(r: Result<StageStep, LifecycleError>) -> Result<StageStep, ErrorView> {
    match r {
        Ok(s) => Ok(s),
        Err(e) => Err(e@),
    }
}

/// What came of asking for the unit's state, with character sequences for
/// strings.
pub open spec fn asked(r: Result<UnitProperties, LifecycleError>) -> Result<
    UnitProperties<Seq<char>>,
    ErrorView,
> {
    match r {
        Ok(p) => Ok(p@),
        Err(e) => Err(e@),
    }
}

/// Whether a lease can be taken at all: systemd has to be the service manager.
pub fn require_systemd(layout: &LifecycleLayout, marker_is_dir: bool) -> (r: Result<
    (),
    LifecycleError,
>)
    ensures
        match r {
            Ok(_) => marker_is_dir,
            Err(e) => !marker_is_dir && e@ == LifecycleError::NoSystemd(
                crate::paths::join_path(layout.root(), "run/systemd/system"@),
            ),
        },
{
    if marker_is_dir {
        Ok(())
    } else {
        Err(LifecycleError::NoSystemd(layout.systemd_marker()))
    }
}

/// What follows once the work of a step came to what was seen: the next step, or
/// why the lease is refused. Whatever is changed or recorded on the way is noted
/// as staged, so that a failure at any step leaves what has to be undone.
pub fn stage(
    layout: &LifecycleLayout,
    staged: &mut Staged,
    step: StageStep,
    seen: Seen,
    tuning: &AcquireTuning,
) -> (r: Result<StageStep, LifecycleError>)
    ensures
        stands_at(
            run_on(
                run_at(step, *old(staged)),
                seen@,
                crate::paths::join_path(
                    layout.root(),
                    "run/systemd/system.control/facelock-daemon.service"@,
                ),
                *tuning,
            ),
            step_view(r),
            *final(staged),
        ),
{
    match (step, seen) {
        (StageStep::VerifyDelegation, Seen::Work(result)) => delegation_verified(result),
        (StageStep::ProbeControl, Seen::Control(result)) => control_probed(staged, result),
        (StageStep::RecordUnit, Seen::Unit { shown, .. }) => unit_recorded(staged, shown),
        (StageStep::CreateBarrier, Seen::Work(result)) => barrier_created(staged, result),
        (StageStep::Reload, Seen::Work(result)) => reloaded(result),
        (StageStep::ProveMasked, Seen::Unit { shown, .. }) => mask_shown(layout, staged, shown),
        (StageStep::Stop, Seen::Work(result)) => stopped(result),
        (StageStep::AwaitInactive, Seen::Unit { shown, late }) => {
            wait_until_inactive(shown, late, tuning)
        },
        (StageStep::AwaitName, Seen::Owner { owned, late }) => {
            wait_until_name_released(owned, late, tuning)
        },
        _ => Ok(step),
    }
}

/// What the outside work of a step came to.
#[derive(Debug)]
pub enum Seen {
    /// Work that succeeds or fails.
    Work(Result<(), LifecycleError>),
    /// What is at the barrier's path.
    Control(Result<ControlEntry, LifecycleError>),
    /// The unit's state, and whether the time to wait for it is over.
    Unit { shown: Result<UnitProperties, LifecycleError>, late: bool },
    /// Whether the bus name has an owner, and whether the time to wait is over.
    Owner { owned: Result<bool, LifecycleError>, late: bool },
}

impl View for Seen {
    type V = Observed;

    open spec fn view(&self) -> Observed {
        match *self {
            Seen::Work(r) => Observed::Work(outcome_view(r)),
            Seen::Control(r) => Observed::Control(
                match r {
                    Ok(entry) => Ok(entry),
                    Err(e) => Err(e@),
                },
            ),
            Seen::Unit { shown, late } => Observed::Unit { shown: asked(shown), late },
            Seen::Owner { owned, late } => Observed::Owner {
                owned: match owned {
                    Ok(has) => Ok(has),
                    Err(e) => Err(e@),
                },
                late,
            },
        }
    }
}

impl Staged {
    /// Nothing changed and nothing recorded yet.
    pub fn new() -> (r: Staged)
        ensures
            stands_at(run_start(), Ok(StageStep::VerifyDelegation), r),
    {
        let unit_file_state = String::new();
        assert(unit_file_state@ =~= Seq::<char>::empty());
        Staged {
            adopted: false,
            barrier: false,
            restart: false,
            was_active: false,
            unit_file_state,
        }
    }
}

/// A step that needs nothing but its own success.
pub open spec fn on_success(result: Result<(), ErrorView>, next: StageStep) -> Result<
    StageStep,
    ErrorView,
> {
    match result {
        Ok(_) => Ok(next),
        Err(e) => Err(e),
    }
}

/// The result of a step with character sequences for strings.
pub open spec fn outcome_view(r: Result<(), LifecycleError>) -> Result<(), ErrorView> {
    match r {
        Ok(_) => Ok(()),
        Err(e) => Err(e@),
    }
}

/// After the activation definitions were examined.
pub fn delegation_verified(result: Result<(), LifecycleError>) -> (r: Result<
    StageStep,
    LifecycleError,
>)
    ensures
        step_view(r) == on_success(outcome_view(result), StageStep::ProbeControl),
{
    match result {
        Ok(_) => Ok(StageStep::ProbeControl),
        Err(e) => Err(e),
    }
}

/// After the barrier's path was examined.
pub fn control_probed(staged: &mut Staged, result: Result<ControlEntry, LifecycleError>) -> (r:
    Result<StageStep, LifecycleError>)
    ensures
        *final(staged) == (Staged {
            adopted: match result {
                Ok(entry) => entry == ControlEntry::Stale,
                Err(_) => old(staged).adopted,
            },
            ..*old(staged)
        }),
        step_view(r) == match result {
            Ok(_) => Ok::<StageStep, ErrorView>(StageStep::RecordUnit),
            Err(e) => Err(e@),
        },
{
    match result {
        Ok(entry) => {
            staged.adopted = entry == ControlEntry::Stale;
            Ok(StageStep::RecordUnit)
        },
        Err(e) => Err(e),
    }
}

/// What a recorded state leads to. The stale barrier becomes ours only once
/// the state is admitted.
pub open spec fn record_leads(result: Result<UnitProperties<Seq<char>>, ErrorView>, adopted: bool) -> Result<
    StageStep,
    ErrorView,
> {
    match result {
        Err(e) => Err(e),
        Ok(props) => match crate::lifecycle::unit::state_refusal(props, adopted) {
            Some(e) => Err(e),
            None => Ok(
                if adopted {
                    StageStep::Reload
                } else {
                    StageStep::CreateBarrier
                },
            ),
        },
    }
}

/// After the unit's state was asked for, before anything is changed.
pub fn unit_recorded(staged: &mut Staged, result: Result<UnitProperties, LifecycleError>) -> (r:
    Result<StageStep, LifecycleError>)
    ensures
        step_view(r) == record_leads(asked(result), old(staged).adopted),
        final(staged).adopted == old(staged).adopted,
        final(staged).restart == old(staged).restart,
        match r {
            Ok(_) => {
                &&& final(staged).barrier == (old(staged).barrier || old(staged).adopted)
                &&& result matches Ok(props)
                &&& final(staged).was_active == (props@.active_state == "active"@)
                &&& final(staged).unit_file_state@ == props@.unit_file_state
            },
            Err(_) => *final(staged) == *old(staged),
        },
{
    match result {
        Err(e) => Err(e),
        Ok(props) => match admissible(&props, staged.adopted) {
            Err(e) => Err(e),
            Ok(_) => {
                staged.was_active = same(props.active_state.as_str(), "active");
                staged.unit_file_state = props.unit_file_state;
                if staged.adopted {
                    staged.barrier = true;
                    Ok(StageStep::Reload)
                } else {
                    Ok(StageStep::CreateBarrier)
                }
            },
        },
    }
}

/// After the barrier was to be created. Only a created barrier is ours.
pub fn barrier_created(staged: &mut Staged, result: Result<(), LifecycleError>) -> (r: Result<
    StageStep,
    LifecycleError,
>)
    ensures
        *final(staged) == (Staged {
            barrier: old(staged).barrier || result is Ok,
            ..*old(staged)
        }),
        step_view(r) == on_success(outcome_view(result), StageStep::Reload),
{
    match result {
        Ok(_) => {
            staged.barrier = true;
            Ok(StageStep::Reload)
        },
        Err(e) => Err(e),
    }
}

/// After systemd was to read its units again.
pub fn reloaded(result: Result<(), LifecycleError>) -> (r: Result<StageStep, LifecycleError>)
    ensures
        step_view(r) == on_success(outcome_view(result), StageStep::ProveMasked),
{
    match result {
        Ok(_) => Ok(StageStep::ProveMasked),
        Err(e) => Err(e),
    }
}

/// What the state after the reload leads to: nothing goes on unless the unit is
/// masked.
pub open spec fn mask_leads(
    result: Result<UnitProperties<Seq<char>>, ErrorView>,
    was_active: bool,
    barrier_path: Seq<char>,
) -> Result<StageStep, ErrorView> {
    match result {
        Err(e) => Err(e),
        Ok(props) => if props.load_state != "masked"@ {
            Err(
                LifecycleError::BarrierNotEffective {
                    path: barrier_path,
                    load_state: props.load_state,
                },
            )
        } else if was_active {
            Ok(StageStep::Stop)
        } else {
            Ok(StageStep::AwaitInactive)
        },
    }
}

/// After the unit's state was asked for with the barrier in place. A daemon
/// that was running becomes ours to restart before it is stopped, so that a
/// half-stopped one is restarted too.
pub fn mask_shown(
    layout: &LifecycleLayout,
    staged: &mut Staged,
    result: Result<UnitProperties, LifecycleError>,
) -> (r: Result<StageStep, LifecycleError>)
    ensures
        step_view(r) == mask_leads(
            asked(result),
            old(staged).was_active,
            crate::paths::join_path(
                layout.root(),
                "run/systemd/system.control/facelock-daemon.service"@,
            ),
        ),
        *final(staged) == (Staged {
            restart: old(staged).restart || r == Ok::<StageStep, LifecycleError>(StageStep::Stop),
            ..*old(staged)
        }),
{
    match result {
        Err(e) => Err(e),
        Ok(props) => {
            if !same(props.load_state.as_str(), "masked") {
                return Err(
                    LifecycleError::BarrierNotEffective {
                        path: layout.barrier_path(),
                        load_state: props.load_state,
                    },
                );
            }
            if staged.was_active {
                staged.restart = true;
                Ok(StageStep::Stop)
            } else {
                Ok(StageStep::AwaitInactive)
            }
        },
    }
}

/// After the daemon was to be stopped.
pub fn stopped(result: Result<(), LifecycleError>) -> (r: Result<StageStep, LifecycleError>)
    ensures
        step_view(r) == on_success(outcome_view(result), StageStep::AwaitInactive),
{
    match result {
        Ok(_) => Ok(StageStep::AwaitInactive),
        Err(e) => Err(e),
    }
}

/// What the unit's state leads to while it is awaited to be inactive.
pub open spec fn inactive_leads(
    result: Result<UnitProperties<Seq<char>>, ErrorView>,
    late: bool,
    tuning: AcquireTuning,
) -> Result<StageStep, ErrorView> {
    match result {
        Err(e) => Err(e),
        Ok(props) => if props.active_state == "inactive"@ {
            Ok(StageStep::AwaitName)
        } else if late {
            Err(
                LifecycleError::DaemonNotStopped {
                    state: props.active_state,
                    timeout_ms: tuning.stop_timeout_ms,
                },
            )
        } else {
            Ok(StageStep::AwaitInactive)
        },
    }
}

/// One look at whether the unit is inactive. `late` says that the time for it
/// is over.
pub fn wait_until_inactive(
    result: Result<UnitProperties, LifecycleError>,
    late: bool,
    tuning: &AcquireTuning,
) -> (r: Result<StageStep, LifecycleError>)
    ensures
        step_view(r) == inactive_leads(asked(result), late, *tuning),
{
    match result {
        Err(e) => Err(e),
        Ok(props) => {
            if same(props.active_state.as_str(), "inactive") {
                Ok(StageStep::AwaitName)
            } else if late {
                Err(
                    LifecycleError::DaemonNotStopped {
                        state: props.active_state,
                        timeout_ms: tuning.stop_timeout_ms,
                    },
                )
            } else {
                Ok(StageStep::AwaitInactive)
            }
        },
    }
}

/// What the answer of the bus leads to while the name is awaited to be free.
pub open spec fn name_leads(result: Result<bool, ErrorView>, late: bool, tuning: AcquireTuning) -> Result<
    StageStep,
    ErrorView,
> {
    match result {
        Err(e) => Err(e),
        Ok(owned) => if !owned {
            Ok(StageStep::Held)
        } else if late {
            Err(LifecycleError::NameStillOwned { timeout_ms: tuning.bus_timeout_ms })
        } else {
            Ok(StageStep::AwaitName)
        },
    }
}

/// One look at whether the bus name is free.
pub fn wait_until_name_released(
    result: Result<bool, LifecycleError>,
    late: bool,
    tuning: &AcquireTuning,
) -> (r: Result<StageStep, LifecycleError>)
    ensures
        step_view(r) == name_leads(
            match result {
                Ok(owned) => Ok(owned),
                Err(e) => Err(e@),
            },
            late,
            *tuning,
        ),
{
    match result {
        Err(e) => Err(e),
        Ok(owned) => {
            if !owned {
                Ok(StageStep::Held)
            } else if late {
                Err(LifecycleError::NameStillOwned { timeout_ms: tuning.bus_timeout_ms })
            } else {
                Ok(StageStep::AwaitName)
            }
        },
    }
}

// ---------------------------------------------------------------------------
// Giving it back
// ---------------------------------------------------------------------------

/// Whether everything is undone, or the barrier is left for a caller that
/// uninstalls next.
#[derive(Debug, Clone, Copy, PartialEq, Eq, Structural)]
pub enum RestoreMode {
    Full,
    LeaveBarred,
}

/// One step of giving a lease back.
#[derive(Debug, Clone, Copy, PartialEq, Eq, Structural)]
pub enum RestoreStep {
    /// Remove the barrier, if its name still leads to the held file.
    RemoveBarrier,
    /// Remove the control directory, if it is empty: the lease created it.
    RemoveControlDir,
    /// Make systemd read its units again.
    Reload,
    /// Ask whether the unit is still masked; only where the reload succeeded.
    ProveUnmasked,
    /// Start the daemon.
    Start,
    /// Close the lock. Its file stays.
    ReleaseLock,
}

/// The steps of giving a lease back, in order. Every one is taken, whatever
/// came of those before it.
pub open spec fn steps_back(
    barrier: bool,
    created_control_dir: bool,
    restart: bool,
    mode: RestoreMode,
) -> Seq<RestoreStep> {
    let unmask = if barrier && mode == RestoreMode::Full {
        if created_control_dir {
            seq![
                RestoreStep::RemoveBarrier,
                RestoreStep::RemoveControlDir,
                RestoreStep::Reload,
                RestoreStep::ProveUnmasked,
            ]
        } else {
            seq![RestoreStep::RemoveBarrier, RestoreStep::Reload, RestoreStep::ProveUnmasked]
        }
    } else {
        Seq::empty()
    };
    let start = if restart && mode == RestoreMode::Full {
        seq![RestoreStep::Start]
    } else {
        Seq::empty()
    };
    unmask + start + seq![RestoreStep::ReleaseLock]
}

/// The steps of giving a lease back, in order.
pub fn restore_steps(staged: &Staged, created_control_dir: bool, mode: RestoreMode) -> (r: Vec<
    RestoreStep,
>)
    ensures
        r@ == steps_back(staged.barrier, created_control_dir, staged.restart, mode),
{
    let mut out: Vec<RestoreStep> = Vec::new();
    if staged.barrier && mode == RestoreMode::Full {
        out.push(RestoreStep::RemoveBarrier);
        if created_control_dir {
            out.push(RestoreStep::RemoveControlDir);
        }
        out.push(RestoreStep::Reload);
        out.push(RestoreStep::ProveUnmasked);
    }
    if staged.restart && mode == RestoreMode::Full {
        out.push(RestoreStep::Start);
    }
    out.push(RestoreStep::ReleaseLock);
    assert(out@ =~= steps_back(staged.barrier, created_control_dir, staged.restart, mode));
    out
}

/// What came of the steps that can fail. A step that was not taken is absent.
#[derive(Debug, PartialEq, Eq)]
pub struct RestoreResults {
    pub removed: Option<Result<(), String>>,
    pub reloaded: Option<Result<(), LifecycleError>>,
    pub unmasked: Option<Result<UnitProperties, LifecycleError>>,
    pub started: Option<Result<(), LifecycleError>>,
}

/// A list of one text, or of none.
pub open spec fn if_any(text: Option<Seq<char>>) -> Seq<Seq<char>> {
    match text {
        Some(t) => seq![t],
        None => Seq::empty(),
    }
}

/// What went wrong when the unit was asked whether it is still masked.
pub open spec fn unmask_complaint(
    unmasked: Option<Result<UnitProperties, LifecycleError>>,
    control_dir: Seq<char>,
) -> Option<Seq<char>> {
    match unmasked {
        Some(Ok(props)) => if props@.load_state == "masked"@ {
            Some(
                UNIT_NAME@ + " is still masked after barrier removal; check "@ + control_dir
                    + " and /etc/systemd/system.control"@,
            )
        } else {
            None
        },
        Some(Err(e)) => Some(
            "could not verify unmasking: "@ + crate::lifecycle::layout::error_text(e@),
        ),
        None => None,
    }
}

/// Everything that went wrong, in the order of the steps.
pub open spec fn complaints(results: RestoreResults, control_dir: Seq<char>) -> Seq<Seq<char>> {
    if_any(
        match results.removed {
            Some(Err(reason)) => Some(reason@),
            _ => None,
        },
    ) + if_any(
        match results.reloaded {
            Some(Err(e)) => Some(
                "daemon-reload after barrier removal: "@ + crate::lifecycle::layout::error_text(
                    e@,
                ),
            ),
            _ => None,
        },
    ) + if_any(unmask_complaint(results.unmasked, control_dir)) + if_any(
        match results.started {
            Some(Err(e)) => Some(
                "could not restart "@ + UNIT_NAME@ + ": "@ + crate::lifecycle::layout::error_text(
                    e@,
                ),
            ),
            _ => None,
        },
    )
}

/// Whether a lease was given back entirely, by what came of its steps.
pub fn restore(layout: &LifecycleLayout, results: &RestoreResults) -> (r: Result<
    (),
    LifecycleError,
>)
    ensures
        ({
            let wrong = complaints(
                *results,
                crate::paths::join_path(layout.root(), "run/systemd/system.control"@),
            );
            match r {
                Ok(_) => wrong.len() == 0,
                Err(e) => wrong.len() > 0 && e@ == LifecycleError::RestoreIncomplete(
                    crate::text::join(wrong, "; "@),
                ),
            }
        }),
{
    let control_dir = layout.control_dir();
    let mut errors: Vec<String> = Vec::new();
    let ghost wrong = complaints(*results, control_dir@);
    if let Some(Err(reason)) = &results.removed {
        errors.push(reason.clone());
    }
    if let Some(Err(e)) = &results.reloaded {
        let mut m = String::from_str("daemon-reload after barrier removal: ");
        m.append(e.message().as_str());
        errors.push(m);
    }
    match &results.unmasked {
        Some(Ok(props)) => {
            if same(props.load_state.as_str(), "masked") {
                let mut m = String::from_str(UNIT_NAME);
                m.append(" is still masked after barrier removal; check ");
                m.append(control_dir.as_str());
                m.append(" and /etc/systemd/system.control");
                errors.push(m);
            }
        },
        Some(Err(e)) => {
            let mut m = String::from_str("could not verify unmasking: ");
            m.append(e.message().as_str());
            errors.push(m);
        },
        None => {},
    }
    if let Some(Err(e)) = &results.started {
        let mut m = String::from_str("could not restart ");
        m.append(UNIT_NAME);
        m.append(": ");
        m.append(e.message().as_str());
        errors.push(m);
    }
    assert(crate::text::texts(errors@) =~= wrong);
    if errors.len() == 0 {
        Ok(())
    } else {
        Err(LifecycleError::RestoreIncomplete(joined(&errors, "; ")))
    }
}

/// Where the barrier stays when a lease is given up without undoing it.
pub open spec fn left_barred(root: Seq<char>, held: bool) -> Result<Seq<char>, ErrorView> {
    if held {
        Ok(
            crate::paths::join_path(root, "run/systemd/system.control/facelock-daemon.service"@),
        )
    } else {
        Err(LifecycleError::RestoreIncomplete("lease was already released"@))
    }
}

/// The barrier that a lease leaves behind for a caller that uninstalls next.
/// A lease that was already given back has none to leave.
pub fn release_leaving_activation_barred(layout: &LifecycleLayout, held: bool) -> (r: Result<
    String,
    LifecycleError,
>)
    ensures
        match r {
            Ok(path) => left_barred(layout.root(), held) == Ok::<Seq<char>, ErrorView>(path@),
            Err(e) => left_barred(layout.root(), held) == Err::<Seq<char>, ErrorView>(e@),
        },
{
    if held {
        Ok(layout.barrier_path())
    } else {
        Err(LifecycleError::RestoreIncomplete(String::from_str("lease was already released")))
    }
}

// ---------------------------------------------------------------------------
// Laws
// ---------------------------------------------------------------------------

/// The daemon is stopped, and the wait for it begun, only once the unit is
/// shown to be masked.
pub proof fn law_nothing_stops_before_the_mask_is_proven(
    result: Result<UnitProperties<Seq<char>>, ErrorView>,
    was_active: bool,
    barrier_path: Seq<char>,
)
    ensures
        mask_leads(result, was_active, barrier_path) is Ok ==> (result matches Ok(props)
            && props.load_state == "masked"@),
        mask_leads(result, was_active, barrier_path) == Ok::<StageStep, ErrorView>(StageStep::Stop)
            ==> was_active,
{
}

/// The lease is held only once the unit was seen inactive and its name free.
pub proof fn law_held_means_stopped_and_released(
    shown: Result<UnitProperties<Seq<char>>, ErrorView>,
    owned: Result<bool, ErrorView>,
    late: bool,
    tuning: AcquireTuning,
)
    ensures
        inactive_leads(shown, late, tuning) == Ok::<StageStep, ErrorView>(StageStep::AwaitName)
            <==> (shown matches Ok(props) && props.active_state == "inactive"@),
        name_leads(owned, late, tuning) == Ok::<StageStep, ErrorView>(StageStep::Held) <==> owned
            == Ok::<bool, ErrorView>(false),
{
}

/// Where the state of the unit leads before anything is changed: on to the barrier,
/// unless a stale one is adopted, exactly if the state is admitted; a state that
/// could not be had ends the run with its error.
pub proof fn law_an_admitted_unit_is_barred_next(
    props: UnitProperties<Seq<char>>,
    error: ErrorView,
    adopted: bool,
)
    ensures
        crate::lifecycle::unit::state_refusal(props, adopted) is None ==> record_leads(
            Ok(props),
            adopted,
        ) == Ok::<StageStep, ErrorView>(
            if adopted {
                StageStep::Reload
            } else {
                StageStep::CreateBarrier
            },
        ),
        crate::lifecycle::unit::state_refusal(props, adopted) matches Some(e) ==> record_leads(
            Ok(props),
            adopted,
        ) == Err::<StageStep, ErrorView>(e),
        record_leads(Err(error), adopted) == Err::<StageStep, ErrorView>(error),
{
}

/// Where a look at the unit or at its name leads while they are awaited: on once the
/// unit is inactive, or the name free; again while there is time; and to a refusal
/// that names the last state and the time that was given, once there is none.
pub proof fn law_waiting_ends_with_success_or_with_the_time(
    props: UnitProperties<Seq<char>>,
    owned: bool,
    late: bool,
    tuning: AcquireTuning,
    was_active: bool,
    barrier_path: Seq<char>,
)
    ensures
        props.active_state == "inactive"@ ==> inactive_leads(Ok(props), late, tuning) == Ok::<
            StageStep,
            ErrorView,
        >(StageStep::AwaitName),
        props.active_state != "inactive"@ && !late ==> inactive_leads(Ok(props), late, tuning)
            == Ok::<StageStep, ErrorView>(StageStep::AwaitInactive),
        props.active_state != "inactive"@ && late ==> inactive_leads(Ok(props), late, tuning)
            == Err::<StageStep, ErrorView>(
            LifecycleError::DaemonNotStopped {
                state: props.active_state,
                timeout_ms: tuning.stop_timeout_ms,
            },
        ),
        !owned ==> name_leads(Ok(owned), late, tuning) == Ok::<StageStep, ErrorView>(
            StageStep::Held,
        ),
        owned && !late ==> name_leads(Ok(owned), late, tuning) == Ok::<StageStep, ErrorView>(
            StageStep::AwaitName,
        ),
        owned && late ==> name_leads(Ok(owned), late, tuning) == Err::<StageStep, ErrorView>(
            LifecycleError::NameStillOwned { timeout_ms: tuning.bus_timeout_ms },
        ),
        props.load_state == "masked"@ ==> mask_leads(Ok(props), was_active, barrier_path) == Ok::<
            StageStep,
            ErrorView,
        >(
            if was_active {
                StageStep::Stop
            } else {
                StageStep::AwaitInactive
            },
        ),
        props.load_state != "masked"@ ==> mask_leads(Ok(props), was_active, barrier_path) == Err::<
            StageStep,
            ErrorView,
        >(
            LifecycleError::BarrierNotEffective {
                path: barrier_path,
                load_state: props.load_state,
            },
        ),
{
}

/// Only a lease that is held can be given up with its barrier in place, and the path
/// that is then told is the barrier's.
pub proof fn law_only_a_held_lease_is_left_barred(root: Seq<char>, held: bool)
    ensures
        left_barred(root, held) is Ok <==> held,
        left_barred(root, held) matches Ok(path) ==> path == crate::paths::join_path(
            root,
            "run/systemd/system.control/facelock-daemon.service"@,
        ),
{
}

/// A lease that was given back without a complaint was given back entirely: the
/// barrier went, systemd read its units again, the unit is no longer masked, and
/// the daemon started, as far as each was to be done.
pub proof fn law_no_complaint_means_given_back(results: RestoreResults, control_dir: Seq<char>)
    ensures
        complaints(results, control_dir).len() == 0 <==> {
            &&& !(results.removed matches Some(Err(_)))
            &&& !(results.reloaded matches Some(Err(_)))
            &&& !(results.unmasked matches Some(Err(_)))
            &&& !(results.unmasked matches Some(Ok(props)) && props@.load_state == "masked"@)
            &&& !(results.started matches Some(Err(_)))
        },
        results.removed matches Some(Err(reason)) ==> complaints(results, control_dir)[0]
            == reason@,
{
}

/// A run that goes well, step by step: what is asked of the outside, in order, for
/// a running daemon and no stale barrier.
pub proof fn law_a_lease_is_taken_in_order(
    barrier_path: Seq<char>,
    tuning: AcquireTuning,
    before: UnitProperties<Seq<char>>,
    barred: UnitProperties<Seq<char>>,
    after: UnitProperties<Seq<char>>,
)
    requires
        crate::lifecycle::unit::state_refusal(before, false) is None,
        before.active_state == "active"@,
        barred.load_state == "masked"@,
        after.active_state == "inactive"@,
    ensures
        ({
            let done = Observed::Work(Ok(()));
            let seen = seq![
                done,
                Observed::Control(Ok(ControlEntry::Absent)),
                Observed::Unit { shown: Ok(before), late: false },
                done,
                done,
                Observed::Unit { shown: Ok(barred), late: false },
                done,
                Observed::Unit { shown: Ok(after), late: false },
                Observed::Owner { owned: Ok(false), late: false },
            ];
            let at = |n: int| run_of(seen.take(n), barrier_path, tuning).step;
            &&& at(0) == Ok::<StageStep, ErrorView>(StageStep::VerifyDelegation)
            &&& at(1) == Ok::<StageStep, ErrorView>(StageStep::ProbeControl)
            &&& at(2) == Ok::<StageStep, ErrorView>(StageStep::RecordUnit)
            &&& at(3) == Ok::<StageStep, ErrorView>(StageStep::CreateBarrier)
            &&& at(4) == Ok::<StageStep, ErrorView>(StageStep::Reload)
            &&& at(5) == Ok::<StageStep, ErrorView>(StageStep::ProveMasked)
            &&& at(6) == Ok::<StageStep, ErrorView>(StageStep::Stop)
            &&& at(7) == Ok::<StageStep, ErrorView>(StageStep::AwaitInactive)
            &&& at(8) == Ok::<StageStep, ErrorView>(StageStep::AwaitName)
            &&& at(9) == Ok::<StageStep, ErrorView>(StageStep::Held)
            &&& run_of(seen.take(9), barrier_path, tuning).unit_file_state == before.unit_file_state
        }),
{
    let done = Observed::Work(Ok(()));
    let seen = seq![
        done,
        Observed::Control(Ok(ControlEntry::Absent)),
        Observed::Unit { shown: Ok(before), late: false },
        done,
        done,
        Observed::Unit { shown: Ok(barred), late: false },
        done,
        Observed::Unit { shown: Ok(after), late: false },
        Observed::Owner { owned: Ok(false), late: false },
    ];
    assert forall|n: int| 0 <= n < 9 implies run_of(
        #[trigger] seen.take(n + 1),
        barrier_path,
        tuning,
    ) == run_on(run_of(seen.take(n), barrier_path, tuning), seen[n], barrier_path, tuning) by {
        assert(seen.take(n + 1).drop_last() =~= seen.take(n));
        assert(seen.take(n + 1).last() == seen[n]);
    }
    let zero: int = 0;
    assert(run_of(seen.take(0), barrier_path, tuning) == run_start());
    assert(run_of(seen.take(zero + 0 + 1), barrier_path, tuning).step is Ok);
    assert(run_of(seen.take(zero + 1 + 1), barrier_path, tuning).step is Ok);
    assert(run_of(seen.take(zero + 2 + 1), barrier_path, tuning).step is Ok);
    assert(run_of(seen.take(zero + 3 + 1), barrier_path, tuning).step is Ok);
    assert(run_of(seen.take(zero + 4 + 1), barrier_path, tuning).step is Ok);
    assert(run_of(seen.take(zero + 5 + 1), barrier_path, tuning).step is Ok);
    assert(run_of(seen.take(zero + 6 + 1), barrier_path, tuning).step is Ok);
    assert(run_of(seen.take(zero + 7 + 1), barrier_path, tuning).step is Ok);
    assert(run_of(seen.take(zero + 8 + 1), barrier_path, tuning).step is Ok);
}

/// Giving a lease back ends with the release of the lock, whatever else it
/// undoes.
pub proof fn law_the_lock_is_released_last(
    barrier: bool,
    created_control_dir: bool,
    restart: bool,
    mode: RestoreMode,
)
    ensures
        ({
            let steps = steps_back(barrier, created_control_dir, restart, mode);
            &&& steps.len() > 0
            &&& steps.last() == RestoreStep::ReleaseLock
            &&& forall|i: int|
                0 <= i < steps.len() - 1 ==> #[trigger] steps[i] != RestoreStep::ReleaseLock
        }),
{
}

/// Where a step stands in the order of giving a lease back.
pub open spec fn place(step: RestoreStep) -> int {
    match step {
        RestoreStep::RemoveBarrier => 0,
        RestoreStep::RemoveControlDir => 1,
        RestoreStep::Reload => 2,
        RestoreStep::ProveUnmasked => 3,
        RestoreStep::Start => 4,
        RestoreStep::ReleaseLock => 5,
    }
}

/// A lease is given back in the reverse order of its taking: the barrier goes
/// before systemd reads its units again, the daemon starts after that, and no
/// step is taken twice.
pub proof fn law_restoration_runs_in_order(
    barrier: bool,
    created_control_dir: bool,
    restart: bool,
    mode: RestoreMode,
    i: int,
    j: int,
)
    requires
        0 <= i < j < steps_back(barrier, created_control_dir, restart, mode).len(),
    ensures
        place(steps_back(barrier, created_control_dir, restart, mode)[i]) < place(
            steps_back(barrier, created_control_dir, restart, mode)[j],
        ),
{
}

/// The daemon is started again exactly if it was stopped, and never behind a
/// barrier that is left in place.
pub proof fn law_restart_exactly_if_stopped(
    barrier: bool,
    created_control_dir: bool,
    restart: bool,
    mode: RestoreMode,
)
    ensures
        steps_back(barrier, created_control_dir, restart, mode).contains(RestoreStep::Start) <==> (
        restart && mode == RestoreMode::Full),
        steps_back(barrier, created_control_dir, restart, mode).contains(
            RestoreStep::RemoveBarrier,
        ) <==> (barrier && mode == RestoreMode::Full),
{
    let steps = steps_back(barrier, created_control_dir, restart, mode);
    if restart && mode == RestoreMode::Full {
        assert(steps[steps.len() - 2] == RestoreStep::Start);
    }
    if barrier && mode == RestoreMode::Full {
        assert(steps[0] == RestoreStep::RemoveBarrier);
    }
}

/// A lease that leaves activation barred does nothing but release the lock.
pub proof fn law_leaving_barred_undoes_nothing(
    barrier: bool,
    created_control_dir: bool,
    restart: bool,
)
    ensures
        steps_back(barrier, created_control_dir, restart, RestoreMode::LeaveBarred) == seq![
            RestoreStep::ReleaseLock,
        ],
{
}

// ---------------------------------------------------------------------------
// Whole runs
// ---------------------------------------------------------------------------

/// What the outside work of a step came to.
pub enum Observed {
    Work(Result<(), ErrorView>),
    Control(Result<ControlEntry, ErrorView>),
    Unit { shown: Result<UnitProperties<Seq<char>>, ErrorView>, late: bool },
    Owner { owned: Result<bool, ErrorView>, late: bool },
}

/// Where a run towards a lease stands, and what it has seen.
pub struct Run {
    pub step: Result<StageStep, ErrorView>,
    pub adopted: bool,
    pub barrier: bool,
    pub restart: bool,
    pub was_active: bool,
    pub unit_file_state: Seq<char>,
    /// The unit was seen masked with the barrier in place.
    pub masked: bool,
    /// The unit was seen inactive after that.
    pub inactive: bool,
    /// The bus name was seen free after that.
    pub free: bool,
}

/// The start of a run.
pub open spec fn run_start() -> Run {
    Run {
        step: Ok(StageStep::VerifyDelegation),
        adopted: false,
        barrier: false,
        restart: false,
        was_active: false,
        unit_file_state: Seq::empty(),
        masked: false,
        inactive: false,
        free: false,
    }
}

/// A run that is at a step with so much staged.
pub open spec fn run_at(step: StageStep, staged: Staged) -> Run {
    Run {
        step: Ok(step),
        adopted: staged.adopted,
        barrier: staged.barrier,
        restart: staged.restart,
        was_active: staged.was_active,
        unit_file_state: staged.unit_file_state@,
        masked: false,
        inactive: false,
        free: false,
    }
}

/// Whether a run is at a step, or refused, with exactly so much staged.
pub open spec fn stands_at(run: Run, step: Result<StageStep, ErrorView>, staged: Staged) -> bool {
    &&& run.step == step
    &&& run.adopted == staged.adopted
    &&& run.barrier == staged.barrier
    &&& run.restart == staged.restart
    &&& run.was_active == staged.was_active
    &&& run.unit_file_state == staged.unit_file_state@
}

/// What follows when the work of the run's step came to what was seen. A run
/// that failed stays where it is, and so does one that sees nothing of its
/// step.
pub open spec fn run_on(
    run: Run,
    seen: Observed,
    barrier_path: Seq<char>,
    tuning: AcquireTuning,
) -> Run {
    match (run.step, seen) {
        (Ok(StageStep::VerifyDelegation), Observed::Work(r)) => Run {
            step: on_success(r, StageStep::ProbeControl),
            ..run
        },
        (Ok(StageStep::ProbeControl), Observed::Control(r)) => match r {
            Ok(entry) => Run {
                step: Ok(StageStep::RecordUnit),
                adopted: entry == ControlEntry::Stale,
                ..run
            },
            Err(e) => Run { step: Err(e), ..run },
        },
        (Ok(StageStep::RecordUnit), Observed::Unit { shown, .. }) => {
            let step = record_leads(shown, run.adopted);
            match (step, shown) {
                (Ok(_), Ok(props)) => Run {
                    step,
                    barrier: run.barrier || run.adopted,
                    was_active: props.active_state == "active"@,
                    unit_file_state: props.unit_file_state,
                    ..run
                },
                _ => Run { step, ..run },
            }
        },
        (Ok(StageStep::CreateBarrier), Observed::Work(r)) => Run {
            step: on_success(r, StageStep::Reload),
            barrier: run.barrier || r is Ok,
            ..run
        },
        (Ok(StageStep::Reload), Observed::Work(r)) => Run {
            step: on_success(r, StageStep::ProveMasked),
            ..run
        },
        (Ok(StageStep::ProveMasked), Observed::Unit { shown, .. }) => {
            let step = mask_leads(shown, run.was_active, barrier_path);
            Run {
                step,
                restart: run.restart || step == Ok::<StageStep, ErrorView>(StageStep::Stop),
                masked: run.masked || (shown matches Ok(props) && props.load_state == "masked"@),
                ..run
            }
        },
        (Ok(StageStep::Stop), Observed::Work(r)) => Run {
            step: on_success(r, StageStep::AwaitInactive),
            ..run
        },
        (Ok(StageStep::AwaitInactive), Observed::Unit { shown, late }) => Run {
            step: inactive_leads(shown, late, tuning),
            inactive: run.inactive || (shown matches Ok(props) && props.active_state
                == "inactive"@),
            ..run
        },
        (Ok(StageStep::AwaitName), Observed::Owner { owned, late }) => Run {
            step: name_leads(owned, late, tuning),
            free: run.free || owned == Ok::<bool, ErrorView>(false),
            ..run
        },
        _ => run,
    }
}

/// Where a run stands after what was seen.
pub open spec fn run_of(
    seen: Seq<Observed>,
    barrier_path: Seq<char>,
    tuning: AcquireTuning,
) -> Run
    decreases seen.len(),
{
    if seen.len() == 0 {
        run_start()
    } else {
        run_on(run_of(seen.drop_last(), barrier_path, tuning), seen.last(), barrier_path, tuning)
    }
}

/// What holds at every point of every run.
pub open spec fn run_sound(run: Run) -> bool {
    let past_barrier = match run.step {
        Ok(step) => step == StageStep::Reload || step == StageStep::ProveMasked || step
            == StageStep::Stop || step == StageStep::AwaitInactive || step == StageStep::AwaitName
            || step == StageStep::Held,
        Err(_) => false,
    };
    let past_mask = match run.step {
        Ok(step) => step == StageStep::Stop || step == StageStep::AwaitInactive || step
            == StageStep::AwaitName || step == StageStep::Held,
        Err(_) => false,
    };
    &&& run.step is Ok && !past_mask ==> !run.restart && !run.masked && !run.inactive
    &&& (run.step == Ok::<StageStep, ErrorView>(StageStep::Stop)) ==> run.was_active
    &&& past_barrier ==> run.barrier
    &&& past_mask ==> run.masked && run.restart == run.was_active
    &&& run.restart ==> run.barrier && run.masked && run.was_active
    &&& run.masked ==> run.barrier
    &&& run.inactive ==> run.masked && run.restart == run.was_active
    &&& run.free ==> run.inactive
    &&& (run.step == Ok::<StageStep, ErrorView>(StageStep::AwaitName)) ==> run.inactive
    &&& (run.step == Ok::<StageStep, ErrorView>(StageStep::Held)) <==> run.free
}

proof fn lemma_run_sound(seen: Seq<Observed>, barrier_path: Seq<char>, tuning: AcquireTuning)
    ensures
        run_sound(run_of(seen, barrier_path, tuning)),
    decreases seen.len(),
{
    if seen.len() > 0 {
        lemma_run_sound(seen.drop_last(), barrier_path, tuning);
    }
}

/// Taking a step from where a run stands leads to where the run stands next, so
/// what holds of every run holds of every lease that is taken step by step.
pub proof fn law_steps_follow_the_run(
    before: Seq<Observed>,
    seen: Observed,
    step: StageStep,
    staged: Staged,
    next: Result<StageStep, ErrorView>,
    next_staged: Staged,
    barrier_path: Seq<char>,
    tuning: AcquireTuning,
)
    requires
        stands_at(run_of(before, barrier_path, tuning), Ok(step), staged),
        stands_at(run_on(run_at(step, staged), seen, barrier_path, tuning), next, next_staged),
    ensures
        stands_at(run_of(before.push(seen), barrier_path, tuning), next, next_staged),
{
    assert(before.push(seen).drop_last() =~= before);
}

/// Whatever the outside work comes to: a lease is held only with the barrier in
/// place, after the unit was seen masked, then inactive, and then its bus name
/// free.
pub proof fn law_a_held_lease_is_exclusive(
    seen: Seq<Observed>,
    barrier_path: Seq<char>,
    tuning: AcquireTuning,
)
    ensures
        ({
            let run = run_of(seen, barrier_path, tuning);
            run.step == Ok::<StageStep, ErrorView>(StageStep::Held) ==> run.barrier && run.masked
                && run.inactive && run.free
        }),
{
    lemma_run_sound(seen, barrier_path, tuning);
}

/// Whatever the outside work comes to: the daemon is stopped only behind the
/// barrier, once the unit was seen masked, and only if it was running; and from
/// then on, in success and in failure, it is ours to start again.
pub proof fn law_a_stopped_daemon_is_ours_to_restart(
    seen: Seq<Observed>,
    barrier_path: Seq<char>,
    tuning: AcquireTuning,
)
    ensures
        ({
            let run = run_of(seen, barrier_path, tuning);
            run.step == Ok::<StageStep, ErrorView>(StageStep::Stop) ==> run.barrier && run.masked
                && run.was_active && run.restart
        }),
        seen.len() > 0 && run_of(seen.drop_last(), barrier_path, tuning).restart ==> run_of(
            seen,
            barrier_path,
            tuning,
        ).restart,
        run_of(seen, barrier_path, tuning).restart ==> run_of(
            seen,
            barrier_path,
            tuning,
        ).was_active,
{
    lemma_run_sound(seen, barrier_path, tuning);
}

/// Whatever the outside work comes to: a barrier that was placed or adopted stays
/// ours to remove, in success and in failure, and a run that never got that far
/// has nothing to undo but its lock.
pub proof fn law_a_placed_barrier_is_ours_to_remove(
    seen: Seq<Observed>,
    barrier_path: Seq<char>,
    tuning: AcquireTuning,
    created_control_dir: bool,
)
    ensures
        seen.len() > 0 && run_of(seen.drop_last(), barrier_path, tuning).barrier ==> run_of(
            seen,
            barrier_path,
            tuning,
        ).barrier,
        ({
            let run = run_of(seen, barrier_path, tuning);
            !run.barrier ==> steps_back(
                run.barrier,
                created_control_dir,
                run.restart,
                RestoreMode::Full,
            ) == seq![RestoreStep::ReleaseLock]
        }),
{
    lemma_run_sound(seen, barrier_path, tuning);
    let run = run_of(seen, barrier_path, tuning);
    assert(!run.barrier ==> steps_back(
        run.barrier,
        created_control_dir,
        run.restart,
        RestoreMode::Full,
    ) =~= seq![RestoreStep::ReleaseLock]);
}

} // verus!
