//! The write phase: which service is next, and what is reported of each.
//!
//! Nothing is written before every service has its plan, and what came of one
//! service never keeps the next from being tried.

use crate::pam::apply::Outcome;
use crate::pam::message::{Line, PamMessage, Sink};
use crate::pam::plan::{plan_writes, ServiceFacts, Target, TargetView, WriteAction, WriteRequest};
use crate::pam::report::{dry_run_all, failure_line, report_row, RowView, ServiceReport};
use crate::pam::resolve::PamDirs;
use vstd::prelude::*;

verus! {

/// Services with their plans, and the reports of those that were done.
#[derive(Debug)]
pub struct WritePhase {
    targets: Vec<Target>,
    rows: Vec<ServiceReport>,
}

/// A write phase as contracts speak of it.
pub struct PhaseView {
    pub targets: Seq<TargetView>,
    pub rows: Seq<RowView>,
}

impl View for WritePhase {
    type V = PhaseView;

    closed spec fn view(&self) -> PhaseView {
        PhaseView {
            targets: crate::pam::plan::targets_view(self.targets@),
            rows: crate::pam::report::rows_view(self.rows@),
        }
    }
}

/// The phase before anything is written.
pub open spec fn phase_start(targets: Seq<TargetView>) -> PhaseView {
    PhaseView { targets, rows: Seq::empty() }
}

/// The service to be tried next: the first without a report.
pub open spec fn next_target(phase: PhaseView) -> Option<TargetView> {
    if phase.rows.len() < phase.targets.len() {
        Some(phase.targets[phase.rows.len() as int])
    } else {
        None
    }
}

/// The phase after the next service came to this outcome.
pub open spec fn reported(
    phase: PhaseView,
    outcome: Outcome<Seq<char>>,
    backup_exists: bool,
) -> PhaseView {
    match next_target(phase) {
        Some(target) => PhaseView {
            rows: phase.rows.push(
                crate::pam::report::write_row(target, outcome, false, backup_exists),
            ),
            ..phase
        },
        None => phase,
    }
}

impl WritePhase {
    /// The service to be tried next; none once every service has been.
    pub fn next(&self) -> (r: Option<&Target>)
        ensures
            match r {
                Some(target) => next_target(self@) == Some(target@),
                None => next_target(self@) is None,
            },
    {
        if self.rows.len() < self.targets.len() {
            Some(&self.targets[self.rows.len()])
        } else {
            None
        }
    }

    /// Reports what the next service came to. The line is for a failure, where
    /// this surface says so itself.
    pub fn done(&mut self, outcome: Outcome, backup_exists: bool, sink: &Sink) -> (r: Option<Line>)
        ensures
            final(self)@ == reported(old(self)@, outcome@, backup_exists),
            match (r, next_target(old(self)@)) {
                (Some(line), Some(target)) => {
                    crate::pam::report::failure_said(target, outcome@, *sink) == Some(line@)
                },
                (None, Some(target)) => {
                    crate::pam::report::failure_said(target, outcome@, *sink) is None
                },
                (Some(_), None) => false,
                (None, None) => true,
            },
    {
        let at: usize = self.rows.len();
        if at >= self.targets.len() {
            return None;
        }
        let line = failure_line(&self.targets[at], &outcome, sink);
        let row = report_row(&self.targets[at], outcome, false, backup_exists);
        let ghost before = crate::pam::report::rows_view(self.rows@);
        self.rows.push(row);
        assert(crate::pam::report::rows_view(self.rows@) =~= before.push(row@));
        line
    }

    /// The reports, one for each service that was tried.
    pub fn into_rows(self) -> (r: Vec<ServiceReport>)
        ensures
            crate::pam::report::rows_view(r@) == self@.rows,
    {
        self.rows
    }
}

/// What a run does once every service has its plan.
#[derive(Debug)]
pub enum Phase {
    /// A dry run: what would be done, with nothing left to do.
    Foreseen(Vec<Line>, Vec<ServiceReport>),
    /// The services are written one by one.
    Writing(WritePhase),
}

/// What a dry run of the services says.
pub open spec fn foreseen_lines(
    targets: Seq<TargetView>,
    action: WriteAction,
    sink: Sink,
) -> Seq<Line<Seq<char>>> {
    targets.map_values(
        |t: TargetView|
            Line { route: sink.info(), message: crate::pam::apply::foreseen(t, action).0 },
    )
}

/// What a dry run of the services reports.
pub open spec fn foreseen_rows(targets: Seq<TargetView>, action: WriteAction) -> Seq<RowView> {
    targets.map_values(
        |t: TargetView|
            crate::pam::report::write_row(
                t,
                crate::pam::apply::foreseen(t, action).1,
                true,
                false,
            ),
    )
}

/// The write phase of a run, or the first refusal among the services' plans,
/// with which there is no phase and nothing is written.
pub fn write_phase(
    dirs: &PamDirs,
    write: &WriteRequest,
    facts: &Vec<ServiceFacts>,
    sink: &Sink,
) -> (r: Result<Phase, PamMessage>)
    requires
        facts.len() == crate::pam::plan::requested(write@.services).len(),
        forall|i: int| 0 <= i < facts.len() ==> (#[trigger] facts[i]).entries.len() == dirs@.len(),
    ensures
        ({
            let planned = crate::pam::plan::all_plans(
                dirs@,
                write@,
                crate::pam::plan::requested(write@.services),
                crate::pam::plan::facts_view(facts@),
            );
            match (r, planned) {
                (Err(m), Err(refusal)) => m@ == refusal,
                (Ok(Phase::Foreseen(lines, rows)), Ok(targets)) => {
                    &&& write.request.dry_run
                    &&& crate::pam::message::lines_view(lines@) == foreseen_lines(
                        targets,
                        write.action,
                        *sink,
                    )
                    &&& crate::pam::report::rows_view(rows@) == foreseen_rows(
                        targets,
                        write.action,
                    )
                },
                (Ok(Phase::Writing(phase)), Ok(targets)) => !write.request.dry_run && phase@
                    == phase_start(targets),
                _ => false,
            }
        }),
{
    match plan_writes(dirs, write, facts) {
        Err(m) => Err(m),
        Ok(targets) => {
            let ghost planned = crate::pam::plan::targets_view(targets@);
            if write.request.dry_run {
                let (lines, rows) = dry_run_all(&targets, write.action, sink);
                assert(crate::pam::message::lines_view(lines@) =~= foreseen_lines(
                    planned,
                    write.action,
                    *sink,
                ));
                assert(crate::pam::report::rows_view(rows@) =~= foreseen_rows(
                    planned,
                    write.action,
                ));
                Ok(Phase::Foreseen(lines, rows))
            } else {
                let phase = WritePhase { targets, rows: Vec::new() };
                assert(phase@.rows =~= Seq::<RowView>::empty());
                Ok(Phase::Writing(phase))
            }
        },
    }
}

// ---------------------------------------------------------------------------
// Laws
// ---------------------------------------------------------------------------

/// The phase after the services came to these outcomes, one after another, each
/// with whether its backup is on disk.
pub open spec fn phase_after(
    targets: Seq<TargetView>,
    came_to: Seq<(Outcome<Seq<char>>, bool)>,
) -> PhaseView
    decreases came_to.len(),
{
    if came_to.len() == 0 {
        phase_start(targets)
    } else {
        reported(phase_after(targets, came_to.drop_last()), came_to.last().0, came_to.last().1)
    }
}

/// Every service is tried once and in order, whatever the services before it
/// came to: after so many outcomes it is the turn of the service with that place,
/// and after as many as there are services the phase is over. The reports are
/// those of the services in order, each with its own outcome.
pub proof fn law_every_service_is_tried_once_and_in_order(
    targets: Seq<TargetView>,
    came_to: Seq<(Outcome<Seq<char>>, bool)>,
)
    requires
        came_to.len() <= targets.len(),
    ensures
        next_target(phase_after(targets, came_to)) == if came_to.len() < targets.len() {
            Some(targets[came_to.len() as int])
        } else {
            None
        },
        phase_after(targets, came_to).targets == targets,
        phase_after(targets, came_to).rows == Seq::new(
            came_to.len(),
            |i: int|
                crate::pam::report::write_row(targets[i], came_to[i].0, false, came_to[i].1),
        ),
    decreases came_to.len(),
{
    if came_to.len() > 0 {
        let before = came_to.drop_last();
        law_every_service_is_tried_once_and_in_order(targets, before);
    }
    assert(phase_after(targets, came_to).rows =~= Seq::new(
        came_to.len(),
        |i: int| crate::pam::report::write_row(targets[i], came_to[i].0, false, came_to[i].1),
    ));
}

/// A dry run says and reports as much as there are services, each in its place, and
/// marks each report as that of a dry run, which wrote no backup.
pub proof fn law_a_dry_run_foresees_every_service(
    targets: Seq<TargetView>,
    action: WriteAction,
    sink: Sink,
    i: int,
)
    requires
        0 <= i < targets.len(),
    ensures
        foreseen_lines(targets, action, sink).len() == targets.len(),
        foreseen_rows(targets, action).len() == targets.len(),
        foreseen_lines(targets, action, sink)[i].message == crate::pam::apply::foreseen(
            targets[i],
            action,
        ).0,
        foreseen_lines(targets, action, sink)[i].route == sink.info(),
        foreseen_rows(targets, action)[i] == crate::pam::report::write_row(
            targets[i],
            crate::pam::apply::foreseen(targets[i], action).1,
            true,
            false,
        ),
{
}

/// The refusal of a run is that of the first service whose plan is refused.
pub proof fn law_the_first_refusal_is_the_runs(
    dirs: Seq<Seq<char>>,
    write: crate::pam::plan::WriteView,
    services: Seq<Seq<char>>,
    facts: Seq<crate::pam::plan::FactsView>,
    first: int,
)
    requires
        facts.len() == services.len(),
        0 <= first < services.len(),
        crate::pam::plan::service_plan(dirs, write, services[first], facts[first]) is Err,
        forall|i: int|
            0 <= i < first ==> crate::pam::plan::service_plan(
                dirs,
                write,
                #[trigger] services[i],
                facts[i],
            ) is Ok,
    ensures
        crate::pam::plan::all_plans(dirs, write, services, facts) == Err::<
            Seq<TargetView>,
            PamMessage<Seq<char>>,
        >(crate::pam::plan::service_plan(dirs, write, services[first], facts[first])->Err_0),
    decreases services.len(),
{
    let n = services.len() - 1;
    let s = services.drop_last();
    let f = facts.drop_last();
    if first < n {
        assert(s[first] == services[first] && f[first] == facts[first]);
        assert forall|i: int| 0 <= i < first implies crate::pam::plan::service_plan(
            dirs,
            write,
            #[trigger] s[i],
            f[i],
        ) is Ok by {
            assert(s[i] == services[i] && f[i] == facts[i]);
        }
        law_the_first_refusal_is_the_runs(dirs, write, s, f, first);
    } else {
        law_a_plan_is_whole_or_refused(dirs, write, s, f);
        if crate::pam::plan::all_plans(dirs, write, s, f) is Err {
            let i = choose|i: int|
                0 <= i < s.len() && (#[trigger] crate::pam::plan::service_plan(
                    dirs,
                    write,
                    s[i],
                    f[i],
                )) is Err;
            assert(s[i] == services[i] && f[i] == facts[i]);
        }
        assert(services.last() == services[n] && facts.last() == facts[n]);
    }
}

/// The plan of a run has every service's own plan, in order; it is refused exactly
/// where one of those is.
pub proof fn law_a_plan_is_whole_or_refused(
    dirs: Seq<Seq<char>>,
    write: crate::pam::plan::WriteView,
    services: Seq<Seq<char>>,
    facts: Seq<crate::pam::plan::FactsView>,
)
    requires
        facts.len() == services.len(),
    ensures
        match crate::pam::plan::all_plans(dirs, write, services, facts) {
            Ok(targets) => targets.len() == services.len() && forall|i: int|
                0 <= i < services.len() ==> crate::pam::plan::service_plan(
                    dirs,
                    write,
                    services[i],
                    facts[i],
                ) == Ok::<TargetView, PamMessage<Seq<char>>>(#[trigger] targets[i]),
            Err(_) => exists|i: int|
                0 <= i < services.len() && (#[trigger] crate::pam::plan::service_plan(
                    dirs,
                    write,
                    services[i],
                    facts[i],
                )) is Err,
        },
    decreases services.len(),
{
    if services.len() > 0 {
        let n = services.len() - 1;
        law_a_plan_is_whole_or_refused(
            dirs,
            write,
            services.drop_last(),
            facts.drop_last(),
        );
        match crate::pam::plan::all_plans(dirs, write, services.drop_last(), facts.drop_last()) {
            Ok(targets) => {
                assert(services.last() == services[n] && facts.last() == facts[n]);
                assert forall|i: int| 0 <= i < n implies crate::pam::plan::service_plan(
                    dirs,
                    write,
                    services[i],
                    facts[i],
                ) == Ok::<TargetView, PamMessage<Seq<char>>>(#[trigger] targets[i]) by {
                    assert(services.drop_last()[i] == services[i]);
                    assert(facts.drop_last()[i] == facts[i]);
                }
            },
            Err(_) => {
                let i = choose|i: int|
                    0 <= i < n && (#[trigger] crate::pam::plan::service_plan(
                        dirs,
                        write,
                        services.drop_last()[i],
                        facts.drop_last()[i],
                    )) is Err;
                assert(crate::pam::plan::service_plan(dirs, write, services[i], facts[i]) is Err);
            },
        }
    }
}

} // verus!
