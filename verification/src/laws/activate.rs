//! Laws of an activation: it ends, it succeeds only with an accepted build, and
//! one that is given up leaves the system as it was before the installation.

use vstd::prelude::*;

use crate::execution::{BuildErrorView, BuildOutput, NixBuildError};
use crate::install::activate::{
    activate, activate_start, diagnosis_view, gate_message, quarantine_changes, quarantine_module,
    quarantine_path, rollback, rollback_changes, ActivateReport, ActivateState, ActivateStep, AfterView, BuildView, DiagnosisWait, EventView,
    HealingView, PendingBuild, PendingDiagnosis, PendingRepair, PendingWrite, RepairEvent,
    RepairWait, WriteWait, MAX_REPAIR_ATTEMPTS,
};
use crate::install::aggregator::{backup_path, registration_record, restoration_changes};
use crate::install::config::{config_for, generated_dir, ConfigView, NixosApplyConfig};
use crate::install::error::{ErrorView, InstallError};
use crate::install::files::{
    after, after_all, atomic_changes, changes, content_at, temp_path, ChangeView, FileChange,
    Files,
};
use crate::install::normalize::accepted;
use crate::install::provenance::module_text;
use crate::install::register::{register_start, RegisterReport, RegisterState, RegisterView};
use crate::install::root::root_fault;
use crate::laws::files::{
    law_atomic_write_takes_effect, lemma_after_all_add, lemma_after_all_first, lemma_after_one,
    lemma_backup_path, lemma_restored, lemma_temp_path, same_but,
};
use crate::laws::register::{
    apart, job_of, law_installation_takes_effect, read_at, step_bound, RegisterRun,
};
use crate::paths::{bare_path, file_name_of, joined_path, lemma_name_start, name_start};
use crate::plan::PlanView;

verus! {

// ── The courses an activation can take ──────────────────────────────────────

/// Whether some answer leads from one state to the other.
pub open spec fn leads_to(a: ActivateState, b: ActivateState) -> bool {
    match a {
        ActivateState::Build(wait) => exists|o: BuildView| b == #[trigger] wait.on_built(o),
        ActivateState::Diagnose(wait) => exists|e: Option<BuildErrorView>|
            b == #[trigger] wait.on_diagnosed(e),
        ActivateState::Repair(wait) => exists|o: Result<Seq<char>, Seq<char>>|
            b == #[trigger] wait.on_repaired(o),
        ActivateState::Change(wait) => exists|failure: Option<Seq<char>>|
            b == #[trigger] wait.on_change(failure),
        _ => false,
    }
}

/// Whether an activation can go through these states, from its start on.
pub open spec fn course(
    config: ConfigView,
    report: RegisterView,
    process_id: u32,
    states: Seq<ActivateState>,
) -> bool
    decreases states.len(),
{
    if states.len() == 0 {
        false
    } else if states.len() == 1 {
        states[0] == activate_start(config, report, process_id)
    } else {
        &&& course(config, report, process_id, states.drop_last())
        &&& leads_to(states.drop_last().last(), states.last())
    }
}

/// How many repairs were asked for.
pub open spec fn repairs_in(states: Seq<ActivateState>) -> int
    decreases states.len(),
{
    if states.len() == 0 {
        0
    } else {
        repairs_in(states.drop_last()) + if states.last() is Repair {
            1int
        } else {
            0
        }
    }
}

/// How many builds were run.
pub open spec fn builds_in(states: Seq<ActivateState>) -> int
    decreases states.len(),
{
    if states.len() == 0 {
        0
    } else {
        builds_in(states.drop_last()) + if states.last() is Build {
            1int
        } else {
            0
        }
    }
}

/// Whether a change of the rollback is to be made.
pub open spec fn rolling_back(state: ActivateState) -> bool {
    state matches ActivateState::Change(wait) && wait.next is GiveUp
}

/// What the files hold in the last of these states. Each change on the way
/// succeeded, unless its failure ended the activation.
pub open spec fn files_along(files: Files, states: Seq<ActivateState>) -> Files
    decreases states.len(),
{
    if states.len() <= 1 {
        files
    } else {
        let before = files_along(files, states.drop_last());
        match states.drop_last().last() {
            ActivateState::Change(wait) => if states.last() == wait.on_change(None) {
                after(before, wait.change())
            } else {
                before
            },
            _ => before,
        }
    }
}

/// Whether the activation was given up after a rejected build.
pub open spec fn given_up(state: ActivateState) -> bool {
    state matches ActivateState::Finished(Err(e)) && e is Rebuild
}

// ── Answers ─────────────────────────────────────────────────────────────────

/// An activation begins with a build of the module that was installed, and with
/// no repair.
pub proof fn law_activation_begins_with_a_build(
    config: &NixosApplyConfig,
    report: &RegisterReport,
    process_id: u32,
    step: ActivateStep,
)
    requires
        call_ensures(activate, (config, report, process_id), step),
    ensures
        step matches ActivateStep::Build(next) && next@ == (HealingView {
            config: config@,
            report: report@,
            process_id,
            module: report.normalized_source@,
            repairs: 0,
        }),
{
}

/// A build that succeeded ends the activation well, after as many repairs as were
/// asked for. One that was rejected never ends it: its output is read. One that
/// could not be run ends it with the reason.
pub proof fn law_only_a_build_that_succeeded_ends_well(
    pending: PendingBuild,
    outcome: Result<BuildOutput, String>,
    step: ActivateStep,
)
    requires
        call_ensures(PendingBuild::built, (pending, outcome), step),
    ensures
        outcome matches Ok(output) && output.success ==> (step matches ActivateStep::Finished(
            Ok(report),
        ) && report.healing_attempts == pending@.repairs),
        outcome matches Ok(output) ==> (!output.success ==> (step matches ActivateStep::Diagnose(next)
            && next@.healing == pending@ && next@.stderr == output.stderr@)),
        outcome matches Err(message) ==> (step matches ActivateStep::Finished(
            Err(InstallError::Engine(reason)),
        ) && reason@ == message@),
{
}

/// A rejected build is repaired or rolled back, whatever diagnostic was read, also
/// none: another repair is asked for while fewer than three were, with the module
/// and the output as they are, and then the first change of the rollback is made.
pub proof fn law_a_rejected_build_is_repaired_or_rolled_back(
    pending: PendingDiagnosis,
    error: Option<NixBuildError>,
    step: ActivateStep,
)
    requires
        call_ensures(PendingDiagnosis::diagnosed, (pending, error), step),
    ensures
        pending@.healing.repairs < 3 ==> (step matches ActivateStep::Repair(next) && {
            &&& next@.healing == (HealingView {
                repairs: pending@.healing.repairs + 1,
                ..pending@.healing
            })
            &&& next@.stderr == pending@.stderr
            &&& next@.error == diagnosis_view(error)
        }),
        pending@.healing.repairs >= 3 ==> (step matches ActivateStep::Change(next) && {
            &&& next@.healing == pending@.healing
            &&& next@.queue == rollback_changes(
                pending@.healing.config,
                pending@.healing.report,
                pending@.healing.process_id,
            )
            &&& next@.next matches AfterView::GiveUp { parsed, stderr } && parsed == diagnosis_view(
                error,
            ) && stderr == pending@.stderr
        }),
        error is None <==> diagnosis_view(error) is None,
        error matches Some(e) ==> diagnosis_view(error) == Some(e@),
{
}

/// A repaired module that is accepted is written behind its provenance comment to
/// the file of the one before, and then built. One that is not accepted counts as
/// a rejected build of the module before, with the reason as its output. Where
/// there is none, the activation ends with the reason.
pub proof fn law_a_repaired_module_is_written_and_built(
    pending: PendingRepair,
    outcome: Result<String, String>,
    step: ActivateStep,
)
    requires
        call_ensures(PendingRepair::repaired, (pending, outcome), step),
    ensures
        outcome matches Ok(raw) ==> (accepted(raw@) is Ok ==> (step matches ActivateStep::Change(next)
            && {
            let healing = pending@.healing;
            let module = accepted(raw@)->Ok_0;
            let file = healing.report.module_file;
            let temp = temp_path(file, healing.process_id);
            &&& next@.healing == (HealingView { module, ..healing })
            &&& next@.queue == seq![
                ChangeView::Write {
                    path: temp,
                    content: module_text(healing.report.plan_id, healing.report.prompt, module),
                },
                ChangeView::Commit { temp, path: file },
            ]
            &&& next@.next is Rebuild
        })),
        outcome matches Ok(raw) ==> (accepted(raw@) is Err ==> (step matches ActivateStep::Diagnose(
            next,
        ) && next@.healing == pending@.healing && next@.stderr
            == "error: regenerated module did not pass the AST gate: "@ + accepted(raw@)->Err_0)),
        outcome matches Err(message) ==> (step matches ActivateStep::Finished(
            Err(InstallError::Repair(reason)),
        ) && reason@ == message@),
{
}

/// Changes are made one after the other. Behind the last of a repair comes a build,
/// behind the last of a rollback the rejection of the last build. One that fails
/// ends the activation with its path and the reason.
pub proof fn law_changes_are_made_one_by_one(
    pending: PendingWrite,
    outcome: Result<(), String>,
    step: ActivateStep,
)
    requires
        call_ensures(PendingWrite::changed, (pending, outcome), step),
        pending@.queue.len() > 0,
    ensures
        outcome is Ok && pending@.queue.len() > 1 ==> (step matches ActivateStep::Change(next) && {
            &&& next@.healing == pending@.healing
            &&& next@.queue == pending@.queue.skip(1)
            &&& next@.next == pending@.next
        }),
        outcome is Ok && pending@.queue.len() == 1 && pending@.next is Rebuild ==> (step matches
            ActivateStep::Build(next) && next@ == pending@.healing),
        outcome is Ok && pending@.queue.len() == 1 ==> (pending@.next matches AfterView::GiveUp {
            parsed,
            stderr,
        } ==> step@ == ActivateState::Finished(Err(ErrorView::Rebuild { parsed, stderr }))),
        outcome matches Err(message) ==> (step matches ActivateStep::Finished(
            Err(InstallError::Io { path, source }),
        ) && path@ == pending@.queue[0].subject() && source@ == message@),
{
    assert(pending@.queue.drop_first() =~= pending@.queue.skip(1));
}

/// A repair is announced with its number out of three and the diagnostic it goes
/// by, and so is a build, if it is that of a repaired module.
pub proof fn law_repairs_and_their_builds_are_announced(
    repair: &PendingRepair,
    of_repair: RepairEvent,
    build: &PendingBuild,
    of_build: Option<RepairEvent>,
)
    requires
        call_ensures(PendingRepair::event, (repair,), of_repair),
        call_ensures(PendingBuild::event, (build,), of_build),
    ensures
        of_repair@ == (EventView::Attempt {
            attempt: repair@.healing.repairs,
            max: 3,
            error: repair@.error,
        }),
        build@.repairs <= 0 ==> of_build is None,
        build@.repairs > 0 ==> (of_build matches Some(event) && event@ == (EventView::Rebuilding {
            attempt: build@.repairs,
        })),
{
}

/// An activation that ends with an error other than the rejection of a build was
/// ended from outside, in its last step: the build could not be run, no module was
/// given, or a change failed.
pub proof fn law_other_errors_come_from_outside(
    config: ConfigView,
    report: RegisterView,
    process_id: u32,
    states: Seq<ActivateState>,
    error: ErrorView,
)
    requires
        course(config, report, process_id, states),
        states.last() == ActivateState::Finished(Err(error)),
        error !is Rebuild,
    ensures
        states.len() >= 2,
        match states[states.len() - 2] {
            ActivateState::Build(wait) => error matches ErrorView::Engine(message)
                && wait.on_built(BuildView::Broken(message)) == states.last(),
            ActivateState::Repair(wait) => error matches ErrorView::Repair(message)
                && wait.on_repaired(Err(message)) == states.last(),
            ActivateState::Change(wait) => error matches ErrorView::Io { path, source }
                && wait.on_change(Some(source)) == states.last(),
            _ => false,
        },
{
    let front = states.drop_last();
    assert(front.last() == states[states.len() - 2]);
    lemma_sound(config, report, process_id, front);
    lemma_rollback_len(config, report, process_id);
}

// ── What every state keeps ──────────────────────────────────────────────────

/// Whether an activation of this installation can carry this along.
spec fn carries(
    config: ConfigView,
    report: RegisterView,
    process_id: u32,
    repairs: int,
    healing: HealingView,
) -> bool {
    &&& healing.config == config
    &&& healing.report == report
    &&& healing.process_id == process_id
    &&& healing.repairs == repairs
    &&& 0 <= repairs <= MAX_REPAIR_ATTEMPTS
}

/// Whether `queue` is what is left of `list` after some changes were made.
spec fn left_of(queue: Seq<ChangeView>, list: Seq<ChangeView>) -> bool {
    &&& 0 < queue.len() <= list.len()
    &&& queue == list.skip(list.len() - queue.len())
}

/// What holds of every state of an activation in which so many repairs were
/// asked for.
spec fn sound(
    config: ConfigView,
    report: RegisterView,
    process_id: u32,
    repairs: int,
    state: ActivateState,
) -> bool {
    match state {
        ActivateState::Build(healing) => carries(config, report, process_id, repairs, healing),
        ActivateState::Diagnose(wait) => carries(
            config,
            report,
            process_id,
            repairs,
            wait.healing,
        ),
        ActivateState::Repair(wait) => carries(config, report, process_id, repairs, wait.healing),
        ActivateState::Change(wait) => {
            &&& carries(config, report, process_id, repairs, wait.healing)
            &&& match wait.next {
                AfterView::Rebuild => left_of(
                    wait.queue,
                    atomic_changes(
                        report.module_file,
                        wait.healing.content(wait.healing.module),
                        process_id,
                    ),
                ),
                AfterView::GiveUp { parsed, stderr } => {
                    &&& repairs == MAX_REPAIR_ATTEMPTS
                    &&& left_of(wait.queue, rollback_changes(config, report, process_id))
                },
            }
        },
        ActivateState::Finished(Ok(n)) => n == repairs && 0 <= repairs <= MAX_REPAIR_ATTEMPTS,
        ActivateState::Finished(Err(e)) => {
            &&& 0 <= repairs <= MAX_REPAIR_ATTEMPTS
            &&& e is Rebuild ==> repairs == MAX_REPAIR_ATTEMPTS
        },
    }
}

/// A rollback is at most four changes.
proof fn lemma_rollback_len(config: ConfigView, report: RegisterView, process_id: u32)
    ensures
        0 < rollback_changes(config, report, process_id).len() <= 4,
{
}

/// One change less is left.
proof fn lemma_left_of(queue: Seq<ChangeView>, list: Seq<ChangeView>)
    requires
        left_of(queue, list),
    ensures
        list.contains(queue.first()),
        queue.first() == list[list.len() - queue.len()],
        queue.len() > 1 ==> left_of(queue.drop_first(), list),
{
    let k = list.len() - queue.len();
    assert(queue[0] == list[k]);
    assert(queue.drop_first() =~= list.skip(k + 1));
}

/// Every step keeps a state sound.
proof fn lemma_sound_step(
    config: ConfigView,
    report: RegisterView,
    process_id: u32,
    repairs: int,
    a: ActivateState,
    b: ActivateState,
)
    requires
        sound(config, report, process_id, repairs, a),
        leads_to(a, b),
    ensures
        sound(
            config,
            report,
            process_id,
            if b is Repair {
                repairs + 1
            } else {
                repairs
            },
            b,
        ),
{
    match a {
        ActivateState::Build(wait) => {},
        ActivateState::Diagnose(wait) => {
            let all = rollback_changes(config, report, process_id);
            lemma_rollback_len(config, report, process_id);
            assert(all.skip(0) =~= all);
        },
        ActivateState::Repair(wait) => {
            let o = choose|o: Result<Seq<char>, Seq<char>>| b == #[trigger] wait.on_repaired(o);
            match o {
                Ok(raw) => {
                    if accepted(raw) is Ok {
                        let module = accepted(raw)->Ok_0;
                        let all = atomic_changes(
                            report.module_file,
                            wait.healing.content(module),
                            process_id,
                        );
                        assert(all.skip(0) =~= all);
                    }
                },
                Err(_) => {},
            }
        },
        ActivateState::Change(wait) => {
            match wait.next {
                AfterView::Rebuild => lemma_left_of(
                    wait.queue,
                    atomic_changes(
                        report.module_file,
                        wait.healing.content(wait.healing.module),
                        process_id,
                    ),
                ),
                AfterView::GiveUp { parsed, stderr } => lemma_left_of(
                    wait.queue,
                    rollback_changes(config, report, process_id),
                ),
            }
        },
        _ => {},
    }
}

/// Every state on a course is sound.
proof fn lemma_sound(
    config: ConfigView,
    report: RegisterView,
    process_id: u32,
    states: Seq<ActivateState>,
)
    requires
        course(config, report, process_id, states),
    ensures
        sound(config, report, process_id, repairs_in(states), states.last()),
    decreases states.len(),
{
    if states.len() == 1 {
        assert(states.drop_last() =~= Seq::empty());
        assert(repairs_in(states.drop_last()) == 0);
    } else {
        lemma_sound(config, report, process_id, states.drop_last());
        lemma_sound_step(
            config,
            report,
            process_id,
            repairs_in(states.drop_last()),
            states.drop_last().last(),
            states.last(),
        );
    }
}

// ── Ending ──────────────────────────────────────────────────────────────────

/// How many states can follow at most.
spec fn rank(state: ActivateState) -> int {
    match state {
        ActivateState::Build(healing) => 5 * (MAX_REPAIR_ATTEMPTS - healing.repairs) + 6,
        ActivateState::Diagnose(wait) => 5 * (MAX_REPAIR_ATTEMPTS - wait.healing.repairs) + 5,
        ActivateState::Repair(wait) => 5 * (MAX_REPAIR_ATTEMPTS - wait.healing.repairs) + 9,
        ActivateState::Change(wait) => match wait.next {
            AfterView::Rebuild => 5 * (MAX_REPAIR_ATTEMPTS - wait.healing.repairs) + 6
                + wait.queue.len(),
            AfterView::GiveUp { parsed, stderr } => wait.queue.len() as int,
        },
        _ => 0,
    }
}

/// Every step lowers the rank.
proof fn lemma_rank_step(
    config: ConfigView,
    report: RegisterView,
    process_id: u32,
    repairs: int,
    a: ActivateState,
    b: ActivateState,
)
    requires
        sound(config, report, process_id, repairs, a),
        leads_to(a, b),
    ensures
        rank(a) > rank(b),
{
    lemma_rollback_len(config, report, process_id);
}

/// The rank bounds how long a course can still get.
proof fn lemma_rank(
    config: ConfigView,
    report: RegisterView,
    process_id: u32,
    states: Seq<ActivateState>,
)
    requires
        course(config, report, process_id, states),
    ensures
        rank(states.last()) + states.len() <= 22,
        rank(states.last()) >= 0,
    decreases states.len(),
{
    lemma_sound(config, report, process_id, states);
    if states.len() > 1 {
        let front = states.drop_last();
        lemma_rank(config, report, process_id, front);
        lemma_sound(config, report, process_id, front);
        lemma_rank_step(
            config,
            report,
            process_id,
            repairs_in(front),
            front.last(),
            states.last(),
        );
    }
}

/// No activation asks for more than [`MAX_REPAIR_ATTEMPTS`] repairs.
pub proof fn law_repairs_are_bounded(
    config: ConfigView,
    report: RegisterView,
    process_id: u32,
    states: Seq<ActivateState>,
)
    requires
        course(config, report, process_id, states),
    ensures
        repairs_in(states) <= MAX_REPAIR_ATTEMPTS,
{
    lemma_sound(config, report, process_id, states);
}

/// Every activation ends: no course has more than 22 states, whatever the builds
/// and the repairs come to.
pub proof fn law_activation_ends(
    config: ConfigView,
    report: RegisterView,
    process_id: u32,
    states: Seq<ActivateState>,
)
    requires
        course(config, report, process_id, states),
    ensures
        states.len() <= 22,
{
    lemma_rank(config, report, process_id, states);
}

/// An activation succeeds only right after a build that was accepted, and its
/// report counts the repairs that it took.
pub proof fn law_success_needs_an_accepted_build(
    config: ConfigView,
    report: RegisterView,
    process_id: u32,
    states: Seq<ActivateState>,
    attempts: int,
)
    requires
        course(config, report, process_id, states),
        states.last() == ActivateState::Finished(Ok(attempts)),
    ensures
        attempts == repairs_in(states),
        states.len() >= 2,
        states[states.len() - 2] matches ActivateState::Build(wait) && forall|o: BuildView|
            #[trigger] wait.on_built(o) == states.last() ==> o is Accepted,
{
    lemma_sound(config, report, process_id, states);
    let front = states.drop_last();
    lemma_sound(config, report, process_id, front);
    assert(front.last() == states[states.len() - 2]);
    let a = front.last();
    match a {
        ActivateState::Diagnose(wait) => {
            lemma_rollback_len(config, report, process_id);
        },
        _ => {},
    }
}

/// How many builds can have been run, by the state that was reached.
spec fn build_limit(repairs: int, state: ActivateState) -> int {
    match state {
        ActivateState::Repair(_) => repairs,
        ActivateState::Change(wait) => if wait.next is GiveUp {
            repairs + 1
        } else {
            repairs
        },
        _ => repairs + 1,
    }
}

/// A repair goes before every build but the first.
proof fn lemma_builds(
    config: ConfigView,
    report: RegisterView,
    process_id: u32,
    states: Seq<ActivateState>,
)
    requires
        course(config, report, process_id, states),
    ensures
        builds_in(states) <= build_limit(repairs_in(states), states.last()),
    decreases states.len(),
{
    let front = states.drop_last();
    if states.len() == 1 {
        assert(front =~= Seq::empty());
        assert(repairs_in(front) == 0 && builds_in(front) == 0);
    } else {
        lemma_builds(config, report, process_id, front);
        lemma_sound(config, report, process_id, front);
        lemma_rollback_len(config, report, process_id);
    }
}

/// No activation runs more than one build and one more for each repair.
pub proof fn law_builds_are_bounded(
    config: ConfigView,
    report: RegisterView,
    process_id: u32,
    states: Seq<ActivateState>,
)
    requires
        course(config, report, process_id, states),
    ensures
        builds_in(states) <= repairs_in(states) + 1,
        builds_in(states) <= MAX_REPAIR_ATTEMPTS + 1,
{
    lemma_builds(config, report, process_id, states);
    lemma_sound(config, report, process_id, states);
}

/// Once a rollback has begun, the activation can only end with an error.
proof fn lemma_rollback_is_final(
    config: ConfigView,
    report: RegisterView,
    process_id: u32,
    states: Seq<ActivateState>,
    i: int,
)
    requires
        course(config, report, process_id, states),
        0 <= i < states.len(),
        rolling_back(states[i]),
    ensures
        rolling_back(states.last()) || (states.last() matches ActivateState::Finished(r) && r
            is Err),
    decreases states.len(),
{
    if i < states.len() - 1 {
        let front = states.drop_last();
        assert(front[i] == states[i]);
        lemma_rollback_is_final(config, report, process_id, front, i);
    }
}

/// An activation that succeeds has rolled nothing back.
pub proof fn law_success_goes_without_rollback(
    config: ConfigView,
    report: RegisterView,
    process_id: u32,
    states: Seq<ActivateState>,
    attempts: int,
    i: int,
)
    requires
        course(config, report, process_id, states),
        states.last() == ActivateState::Finished(Ok(attempts)),
        0 <= i < states.len(),
    ensures
        !rolling_back(states[i]),
{
    if rolling_back(states[i]) {
        lemma_rollback_is_final(config, report, process_id, states, i);
    }
}

// ── Healing ─────────────────────────────────────────────────────────────────

/// Before an activation is given up, it changes no file but that of its module;
/// and it is rolled back only when every repair was spent.
pub proof fn law_changes_are_healing_or_rollback(
    config: ConfigView,
    report: RegisterView,
    process_id: u32,
    states: Seq<ActivateState>,
    wait: WriteWait,
)
    requires
        course(config, report, process_id, states),
        states.last() == ActivateState::Change(wait),
    ensures
        match wait.next {
            AfterView::Rebuild => atomic_changes(
                report.module_file,
                wait.healing.content(wait.healing.module),
                process_id,
            ).contains(wait.change()),
            AfterView::GiveUp { parsed, stderr } => {
                &&& repairs_in(states) == MAX_REPAIR_ATTEMPTS
                &&& rollback_changes(config, report, process_id).contains(wait.change())
            },
        },
{
    lemma_sound(config, report, process_id, states);
    match wait.next {
        AfterView::Rebuild => lemma_left_of(
            wait.queue,
            atomic_changes(
                report.module_file,
                wait.healing.content(wait.healing.module),
                process_id,
            ),
        ),
        AfterView::GiveUp { parsed, stderr } => lemma_left_of(
            wait.queue,
            rollback_changes(config, report, process_id),
        ),
    }
}

/// A repaired module that is not accepted is not installed: the module before
/// it stays, and the reason is what the next repair is told.
pub proof fn law_invalid_repair_is_not_installed(wait: RepairWait, raw: Seq<char>)
    requires
        accepted(raw) is Err,
    ensures
        wait.on_repaired(Ok(raw)) == ActivateState::Diagnose(
            DiagnosisWait {
                healing: wait.healing,
                stderr: gate_message(accepted(raw)->Err_0),
            },
        ),
{
}

// ── Giving up ───────────────────────────────────────────────────────────────

/// Whether `files` differ from `first` at most in the module file, which is
/// there.
spec fn healed(first: Files, files: Files, module_file: Seq<char>, process_id: u32) -> bool {
    &&& same_but(files, first, set![module_file, temp_path(module_file, process_id)])
    &&& content_at(files, module_file) is Some
}

/// What the files hold in a state of an activation.
spec fn files_sound(
    config: ConfigView,
    report: RegisterView,
    process_id: u32,
    first: Files,
    files: Files,
    state: ActivateState,
) -> bool {
    let all = rollback_changes(config, report, process_id);
    match state {
        ActivateState::Change(wait) => match wait.next {
            AfterView::Rebuild => healed(first, files, report.module_file, process_id),
            AfterView::GiveUp { parsed, stderr } => exists|broken: Files|
                #[trigger] healed(first, broken, report.module_file, process_id) && files
                    == after_all(broken, all.take(all.len() - wait.queue.len())),
        },
        ActivateState::Finished(Err(e)) => e is Rebuild ==> exists|broken: Files|
            #[trigger] healed(first, broken, report.module_file, process_id) && files == after_all(
                broken,
                all,
            ),
        ActivateState::Finished(Ok(_)) => true,
        _ => healed(first, files, report.module_file, process_id),
    }
}

/// A change of an atomic write of the module file keeps the files healed.
proof fn lemma_healed_change(
    first: Files,
    files: Files,
    module_file: Seq<char>,
    content: Seq<char>,
    process_id: u32,
    change: ChangeView,
)
    requires
        healed(first, files, module_file, process_id),
        atomic_changes(module_file, content, process_id).contains(change),
    ensures
        healed(first, after(files, change), module_file, process_id),
{
    lemma_temp_path(module_file, process_id);
    let list = atomic_changes(module_file, content, process_id);
    let next = after(files, change);
    let apart = set![module_file, temp_path(module_file, process_id)];
    let i = list.index_of(change);
    assert(list[i] == change);
    assert forall|p: Seq<char>| !apart.contains(p) implies #[trigger] content_at(next, p)
        == content_at(first, p) by {
        assert(content_at(files, p) == content_at(first, p));
    }
}

/// Every step keeps track of the files.
proof fn lemma_files_step(
    config: ConfigView,
    report: RegisterView,
    process_id: u32,
    repairs: int,
    first: Files,
    files: Files,
    a: ActivateState,
    b: ActivateState,
)
    requires
        sound(config, report, process_id, repairs, a),
        files_sound(config, report, process_id, first, files, a),
        leads_to(a, b),
    ensures
        files_sound(
            config,
            report,
            process_id,
            first,
            match a {
                ActivateState::Change(wait) => if b == wait.on_change(None) {
                    after(files, wait.change())
                } else {
                    files
                },
                _ => files,
            },
            b,
        ),
{
    let all = rollback_changes(config, report, process_id);
    lemma_rollback_len(config, report, process_id);
    match a {
        ActivateState::Diagnose(wait) => {
            assert(all.take(0) =~= Seq::empty());
            assert(after_all(files, all.take(0)) == files);
        },
        ActivateState::Change(wait) => {
            let next = after(files, wait.change());
            match wait.next {
                AfterView::Rebuild => {
                    let content = wait.healing.content(wait.healing.module);
                    let list = atomic_changes(report.module_file, content, process_id);
                    lemma_left_of(wait.queue, list);
                    lemma_healed_change(
                        first,
                        files,
                        report.module_file,
                        content,
                        process_id,
                        wait.change(),
                    );
                },
                AfterView::GiveUp { parsed, stderr } => {
                    lemma_left_of(wait.queue, all);
                    let k = all.len() - wait.queue.len();
                    let broken = choose|broken: Files|
                        #[trigger] healed(first, broken, report.module_file, process_id) && files
                            == after_all(broken, all.take(k));
                    assert(all.take(k + 1).drop_last() =~= all.take(k));
                    assert(next == after_all(broken, all.take(k + 1)));
                    assert(all.take(all.len() as int) =~= all);
                    assert(healed(first, broken, report.module_file, process_id));
                },
            }
        },
        _ => {},
    }
}

/// The files along a course.
proof fn lemma_files(
    config: ConfigView,
    report: RegisterView,
    process_id: u32,
    first: Files,
    states: Seq<ActivateState>,
)
    requires
        course(config, report, process_id, states),
        content_at(first, report.module_file) is Some,
    ensures
        files_sound(
            config,
            report,
            process_id,
            first,
            files_along(first, states),
            states.last(),
        ),
    decreases states.len(),
{
    if states.len() > 1 {
        let front = states.drop_last();
        lemma_files(config, report, process_id, first, front);
        lemma_sound(config, report, process_id, front);
        lemma_files_step(
            config,
            report,
            process_id,
            repairs_in(front),
            first,
            files_along(first, front),
            front.last(),
            states.last(),
        );
    }
}

/// Whether the files that a rollback changes are different files.
pub open spec fn rollback_apart(
    config: ConfigView,
    report: RegisterView,
    process_id: u32,
) -> bool {
    let module_file = report.module_file;
    let aggregator = report.aggregator_path;
    &&& module_file != aggregator
    &&& temp_path(module_file, process_id) != aggregator
    &&& temp_path(aggregator, process_id) != module_file
    &&& report.module_prior is None ==> {
        &&& quarantine_path(config, module_file) != module_file
        &&& quarantine_path(config, module_file) != aggregator
    }
}

/// The files that a rollback may change. The place for failed modules is one of
/// them only where the module file was new.
pub open spec fn rollback_paths(
    config: ConfigView,
    report: RegisterView,
    process_id: u32,
) -> Set<Seq<char>> {
    let paths = set![
        report.module_file,
        temp_path(report.module_file, process_id),
        report.aggregator_path,
        temp_path(report.aggregator_path, process_id),
    ];
    if report.module_prior is None {
        paths.insert(quarantine_path(config, report.module_file))
    } else {
        paths
    }
}

/// What a rollback leaves behind: the aggregator and the module file hold what
/// the report says that they held before; a module file that was new is kept in
/// the `failed` directory; every other file is as it was.
pub proof fn law_rollback_restores(
    config: ConfigView,
    report: RegisterView,
    process_id: u32,
    files: Files,
)
    requires
        rollback_apart(config, report, process_id),
        content_at(files, report.module_file) is Some,
    ensures
        ({
            let done = after_all(files, rollback_changes(config, report, process_id));
            &&& content_at(done, report.aggregator_path) == report.aggregator_change.prior
            &&& content_at(done, report.module_file) == report.module_prior
            &&& report.module_prior is None ==> content_at(
                done,
                quarantine_path(config, report.module_file),
            ) == content_at(files, report.module_file)
            &&& same_but(done, files, rollback_paths(config, report, process_id))
        }),
{
    let restore = restoration_changes(
        report.aggregator_path,
        report.aggregator_change,
        process_id,
    );
    let mid = after_all(files, restore);
    lemma_restored(files, report.aggregator_path, report.aggregator_change, process_id);
    lemma_temp_path(report.module_file, process_id);
    lemma_temp_path(report.aggregator_path, process_id);
    assert(content_at(mid, report.module_file) == content_at(files, report.module_file));
    let touched = rollback_paths(config, report, process_id);
    let done = after_all(files, rollback_changes(config, report, process_id));
    match report.module_prior {
        Some(prior) => {
            let write = atomic_changes(report.module_file, prior, process_id);
            lemma_after_all_add(files, restore, write);
            law_atomic_write_takes_effect(mid, report.module_file, prior, process_id);
        },
        None => {
            let list = quarantine_changes(config, report.module_file);
            lemma_after_all_add(files, restore, list);
            lemma_after_all_first(mid, list);
            assert(list.drop_first() =~= seq![list[1]]);
            lemma_after_one(mid, list[1]);
        },
    }
    assert forall|p: Seq<char>| !touched.contains(p) implies #[trigger] content_at(done, p)
        == content_at(files, p) by {
        assert(content_at(mid, p) == content_at(files, p));
    }
}

/// An activation is given up only when every repair was spent, and then the
/// rollback has been carried out: the aggregator and the module file hold what
/// they held before the installation, and a module file that was new is kept in
/// the `failed` directory.
pub proof fn law_giving_up_rolls_back(
    config: ConfigView,
    report: RegisterView,
    process_id: u32,
    files: Files,
    states: Seq<ActivateState>,
)
    requires
        course(config, report, process_id, states),
        given_up(states.last()),
        content_at(files, report.module_file) is Some,
        rollback_apart(config, report, process_id),
    ensures
        repairs_in(states) == MAX_REPAIR_ATTEMPTS,
        ({
            let done = files_along(files, states);
            &&& content_at(done, report.aggregator_path) == report.aggregator_change.prior
            &&& content_at(done, report.module_file) == report.module_prior
            &&& report.module_prior is None ==> content_at(
                done,
                quarantine_path(config, report.module_file),
            ) is Some
            &&& same_but(done, files, rollback_paths(config, report, process_id))
        }),
{
    lemma_sound(config, report, process_id, states);
    lemma_files(config, report, process_id, files, states);
    let done = files_along(files, states);
    let broken = choose|broken: Files|
        #[trigger] healed(files, broken, report.module_file, process_id) && done == after_all(
            broken,
            rollback_changes(config, report, process_id),
        );
    law_rollback_restores(config, report, process_id, broken);
    let touched = rollback_paths(config, report, process_id);
    assert forall|p: Seq<char>| !touched.contains(p) implies #[trigger] content_at(done, p)
        == content_at(files, p) by {
        assert(content_at(done, p) == content_at(broken, p));
        assert(content_at(broken, p) == content_at(files, p));
    }
}

/// An installation followed by an activation that is given up leaves the
/// aggregator and the module file as they were before both, and touches no other
/// file but their temporary files, the backup of the aggregator and the place for
/// failed modules.
pub proof fn law_failed_apply_is_undone(
    config: ConfigView,
    plan: PlanView,
    module: Seq<char>,
    process_id: u32,
    files: Files,
    steps: nat,
    states: Seq<ActivateState>,
)
    requires
        accepted(plan.module_source) == Ok::<Seq<char>, Seq<char>>(module),
        root_fault(config, read_at(files, config.root_config_path)) is None,
        apart(config, plan.id, process_id),
        content_at(files, config.module_file(plan.id)) is None ==> {
            &&& quarantine_path(config, config.module_file(plan.id)) != config.module_file(plan.id)
            &&& quarantine_path(config, config.module_file(plan.id)) != config.aggregator_path
        },
        steps >= step_bound(),
        ({
            let start = RegisterRun { state: register_start(config, plan, process_id), files };
            start.carried_out(steps).state matches RegisterState::Finished(Ok(report))
                && course(config, report, process_id, states)
        }),
        given_up(states.last()),
    ensures
        ({
            let start = RegisterRun { state: register_start(config, plan, process_id), files };
            let done = files_along(start.carried_out(steps).files, states);
            let module_file = config.module_file(plan.id);
            let aggregator = config.aggregator_path;
            &&& content_at(done, aggregator) == content_at(files, aggregator)
            &&& content_at(done, module_file) == content_at(files, module_file)
            &&& same_but(
                done,
                files,
                set![
                    temp_path(module_file, process_id),
                    temp_path(aggregator, process_id),
                    backup_path(aggregator),
                    quarantine_path(config, module_file),
                ],
            )
        }),
{
    let start = RegisterRun { state: register_start(config, plan, process_id), files };
    let installed = start.carried_out(steps).files;
    let module_file = config.module_file(plan.id);
    let aggregator = config.aggregator_path;
    law_installation_takes_effect(config, plan, module, process_id, files, steps);
    let job = job_of(config, plan, module, process_id);
    let report = job.report(
        content_at(files, module_file),
        registration_record(aggregator, plan.id, content_at(files, aggregator)),
    );
    law_giving_up_rolls_back(config, report, process_id, installed, states);
    let done = files_along(installed, states);
    let touched = set![
        temp_path(module_file, process_id),
        temp_path(aggregator, process_id),
        backup_path(aggregator),
        quarantine_path(config, module_file),
    ];
    assert forall|p: Seq<char>| !touched.contains(p) implies #[trigger] content_at(done, p)
        == content_at(files, p) by {
        if p != module_file && p != aggregator {
            assert(content_at(done, p) == content_at(installed, p));
            assert(content_at(installed, p) == content_at(files, p));
        }
    }
}

// ── Paths ───────────────────────────────────────────────────────────────────

/// The name begins behind the last separator.
pub(crate) proof fn lemma_name_behind(dir: Seq<char>, name: Seq<char>)
    requires
        dir.len() > 0,
        dir.last() == '/',
        !name.contains('/'),
    ensures
        name_start(dir + name) == dir.len(),
    decreases name.len(),
{
    if name.len() == 0 {
        assert(dir + name =~= dir);
    } else {
        assert((dir + name).drop_last() =~= dir + name.drop_last());
        assert((dir + name).last() == name[name.len() - 1]);
        assert forall|i: int| 0 <= i < name.drop_last().len() implies name.drop_last()[i] != '/' by {
            assert(name.drop_last()[i] == name[i]);
        }
        lemma_name_behind(dir, name.drop_last());
    }
}

/// Where the module of a plan is kept once it has failed.
pub open spec fn failed_file(config: ConfigView, plan_id: Seq<char>) -> Seq<char> {
    joined_path(joined_path(config.generated_modules_dir, "failed"@), plan_id + ".nix"@)
}

/// Whatever the configuration, a module that has failed keeps the name of its
/// plan, in another directory than before, if that name holds no separator.
pub proof fn law_failed_module_keeps_its_name(config: ConfigView, plan_id: Seq<char>)
    requires
        !plan_id.contains('/'),
    ensures
        quarantine_path(config, config.module_file(plan_id)) == failed_file(config, plan_id),
        failed_file(config, plan_id) != config.module_file(plan_id),
        failed_file(config, plan_id).last() == 'x',
        config.module_file(plan_id).last() == 'x',
{
    reveal_strlit(".nix");
    reveal_strlit("failed");
    let dir = config.generated_modules_dir;
    let name = plan_id + ".nix"@;
    assert(name.len() >= 4);
    assert forall|i: int| 0 <= i < name.len() implies name[i] != '/' by {
        if i < plan_id.len() {
            assert(name[i] == plan_id[i]);
        }
    }
    let module_file = config.module_file(plan_id);
    let before = module_file.take(module_file.len() - name.len());
    assert(module_file =~= before + name);
    if before.len() == 0 {
        lemma_name_start(name);
        assert(module_file =~= name);
    } else {
        lemma_name_behind(before, name);
    }
    assert(module_file.last() == 'x');
    assert(bare_path(module_file) == module_file);
    assert(module_file.skip(before.len() as int) =~= name);
    assert(file_name_of(module_file) == Some(name));
    let failed = failed_file(config, plan_id);
    assert(failed.len() > module_file.len());
}

/// A module file without a name is kept as `module.nix`, and every other under its
/// name, in the directory `failed` beside the modules, which is made first.
pub proof fn law_failed_modules_are_kept_in_a_directory(
    config: ConfigView,
    module_file: Seq<char>,
)
    ensures
        ({
            let dir = joined_path(config.generated_modules_dir, "failed"@);
            let dest = match file_name_of(module_file) {
                Some(name) => joined_path(dir, name),
                None => joined_path(dir, "module.nix"@),
            };
            quarantine_changes(config, module_file) == seq![
                ChangeView::CreateDirAll { path: dir },
                ChangeView::SetAside { path: module_file, dest },
            ]
        }),
{
}

/// With paths derived from one configuration directory, the files of an
/// installation and the place for a failed module are different files, if the
/// name of the plan holds no separator and is not that of the aggregator.
pub proof fn law_derived_files_are_apart(
    config_dir: Seq<char>,
    root_config: Option<Seq<char>>,
    plan_id: Seq<char>,
    process_id: u32,
)
    requires
        !plan_id.contains('/'),
        plan_id != "default"@,
    ensures
        ({
            let config = config_for(config_dir, root_config);
            let module_file = config.module_file(plan_id);
            &&& module_file != config.aggregator_path
            &&& temp_path(module_file, process_id) != config.aggregator_path
            &&& failed_file(config, plan_id) != config.aggregator_path
        }),
{
    reveal_strlit(".nix");
    reveal_strlit("default");
    reveal_strlit("default.nix");
    reveal_strlit("failed");
    reveal_strlit("ai-generated");
    reveal_strlit("modules");
    let config = config_for(config_dir, root_config);
    let dir = generated_dir(config_dir);
    let at = dir.len() as int + 1;
    assert(dir.len() > 0 && dir.last() == 'd');
    let name = plan_id + ".nix"@;
    assert(name[0] != '/') by {
        if plan_id.len() > 0 {
            assert(name[0] == plan_id[0]);
        }
    }
    let module_file = config.module_file(plan_id);
    let aggregator = config.aggregator_path;
    assert(module_file == dir.push('/') + name);
    assert(aggregator == dir.push('/') + "default.nix"@);
    if module_file == aggregator {
        assert(module_file.len() == aggregator.len());
        assert forall|i: int| 0 <= i < plan_id.len() implies plan_id[i] == "default"@[i] by {
            assert(module_file[at + i] == plan_id[i]);
            assert(aggregator[at + i] == "default.nix"@[i]);
        }
        assert(plan_id =~= "default"@);
    }
    lemma_temp_path(module_file, process_id);
    assert(aggregator.last() == 'x');
    let failed = failed_file(config, plan_id);
    assert(failed == (dir.push('/') + "failed"@).push('/') + name);
    assert(failed[at] == 'f');
    assert(aggregator[at] == 'd');
}

// ── Rolling back ────────────────────────────────────────────────────────────

/// A rollback gives back what was there before the installation, in whatever way
/// the module file was rewritten since. The aggregator holds what it held, or is
/// gone where it was new. So does the module file; where that was new, what it
/// held in the end is kept under the name of the plan in the `failed` directory,
/// and otherwise nothing is put there. Only temporary files and the backup of the
/// aggregator are not as they were.
///
/// The paths of the configuration may be any, unless the aggregator lies where
/// the module, its temporary file or the failed module goes.
pub proof fn law_rollback_undoes_installation(
    config: ConfigView,
    plan: PlanView,
    module: Seq<char>,
    process_id: u32,
    files: Files,
    steps: nat,
    since: Files,
)
    requires
        accepted(plan.module_source) == Ok::<Seq<char>, Seq<char>>(module),
        root_fault(config, read_at(files, config.root_config_path)) is None,
        !plan.id.contains('/'),
        config.aggregator_path != config.module_file(plan.id),
        config.aggregator_path != temp_path(config.module_file(plan.id), process_id),
        content_at(files, config.module_file(plan.id)) is None ==> config.aggregator_path
            != failed_file(config, plan.id),
        steps >= step_bound(),
        ({
            let start = RegisterRun { state: register_start(config, plan, process_id), files };
            let installed = start.carried_out(steps).files;
            &&& same_but(since, installed, set![config.module_file(plan.id)])
            &&& content_at(since, config.module_file(plan.id)) is Some
        }),
    ensures
        ({
            let start = RegisterRun { state: register_start(config, plan, process_id), files };
            let module_file = config.module_file(plan.id);
            let aggregator = config.aggregator_path;
            let scratch = set![
                temp_path(module_file, process_id),
                temp_path(aggregator, process_id),
                backup_path(aggregator),
            ];
            match start.carried_out(steps).state {
                RegisterState::Finished(Ok(report)) => {
                    let done = after_all(since, rollback_changes(config, report, process_id));
                    &&& content_at(done, aggregator) == content_at(files, aggregator)
                    &&& content_at(done, module_file) == content_at(files, module_file)
                    &&& match content_at(files, module_file) {
                        Some(_) => same_but(done, files, scratch),
                        None => {
                            &&& content_at(done, failed_file(config, plan.id)) == content_at(
                                since,
                                module_file,
                            )
                            &&& same_but(
                                done,
                                files,
                                scratch.insert(failed_file(config, plan.id)),
                            )
                        },
                    }
                },
                _ => false,
            }
        }),
{
    let start = RegisterRun { state: register_start(config, plan, process_id), files };
    let installed = start.carried_out(steps).files;
    let module_file = config.module_file(plan.id);
    let aggregator = config.aggregator_path;
    let failed = failed_file(config, plan.id);
    law_failed_module_keeps_its_name(config, plan.id);
    lemma_temp_path(module_file, process_id);
    lemma_temp_path(aggregator, process_id);
    lemma_backup_path(aggregator);
    assert(apart(config, plan.id, process_id));
    law_installation_takes_effect(config, plan, module, process_id, files, steps);
    let job = job_of(config, plan, module, process_id);
    let report = job.report(
        content_at(files, module_file),
        registration_record(aggregator, plan.id, content_at(files, aggregator)),
    );
    assert(start.carried_out(steps).state == RegisterState::Finished(Ok(report)));
    law_rollback_restores(config, report, process_id, since);
    let done = after_all(since, rollback_changes(config, report, process_id));
    let scratch = set![
        temp_path(module_file, process_id),
        temp_path(aggregator, process_id),
        backup_path(aggregator),
    ];
    let new = content_at(files, module_file) is None;
    assert forall|p: Seq<char>| !scratch.contains(p) && !(new && p == failed) implies
        #[trigger] content_at(done, p) == content_at(files, p) by {
        if p != module_file && p != aggregator {
            assert(content_at(done, p) == content_at(since, p));
            assert(content_at(since, p) == content_at(installed, p));
            assert(content_at(installed, p) == content_at(files, p));
        }
    }
}

// ── What is shown ───────────────────────────────────────────────────────────

/// The diagnostic of a rejected build is read out of what that build printed, and the
/// first repair is asked for with that and with the module that was installed.
pub proof fn law_the_first_repair_is_asked_for_with_the_rejected_build(
    config: &NixosApplyConfig,
    report: &RegisterReport,
    process_id: u32,
    begun: ActivateStep,
    output: BuildOutput,
    rejected: ActivateStep,
    error: Option<NixBuildError>,
    asked: ActivateStep,
)
    requires
        call_ensures(activate, (config, report, process_id), begun),
        begun matches ActivateStep::Build(build) && call_ensures(
            PendingBuild::built,
            (build, Ok::<BuildOutput, String>(output)),
            rejected,
        ),
        !output.success,
        rejected matches ActivateStep::Diagnose(diagnosis) && call_ensures(
            PendingDiagnosis::diagnosed,
            (diagnosis, error),
            asked,
        ),
    ensures
        forall|build: PendingBuild, path: String|
            begun == ActivateStep::Build(build) && #[trigger] call_ensures(
                PendingBuild::path,
                (&build,),
                path,
            ) ==> path@ == report.module_file@,
        forall|diagnosis: PendingDiagnosis, shown: &str|
            rejected == ActivateStep::Diagnose(diagnosis) && #[trigger] call_ensures(
                PendingDiagnosis::stderr,
                (&diagnosis,),
                shown,
            ) ==> shown@ == output.stderr@,
        forall|repair: PendingRepair, shown: &str|
            asked == ActivateStep::Repair(repair) && #[trigger] call_ensures(
                PendingRepair::stderr,
                (&repair,),
                shown,
            ) ==> shown@ == output.stderr@,
        forall|repair: PendingRepair, shown: &str|
            asked == ActivateStep::Repair(repair) && #[trigger] call_ensures(
                PendingRepair::module,
                (&repair,),
                shown,
            ) ==> shown@ == report.normalized_source@,
{
    assert(begun@ == activate_start(config@, report@, process_id));
    let build = begun->Build_0;
    assert(rejected@ == build@.on_built(BuildView::Rejected(output.stderr@)));
    let diagnosis = rejected->Diagnose_0;
    assert(asked@ == diagnosis@.on_diagnosed(diagnosis_view(error)));
}

/// The change to be made is the first of those that are left.
pub proof fn law_the_next_change_is_shown(pending: &PendingWrite, change: &FileChange)
    requires
        call_ensures(PendingWrite::change, (pending,), change),
    ensures
        change@ == pending@.queue[0],
{
}

/// A new report counts no repairs.
pub proof fn law_a_new_report_counts_nothing(report: ActivateReport)
    requires
        call_ensures(ActivateReport::default, (), report),
    ensures
        report.healing_attempts == 0,
{
}

/// A rollback restores the aggregator before it sees to the module: that is put back, or
/// set aside if there was none.
pub proof fn law_the_aggregator_is_rolled_back_first(
    config: &NixosApplyConfig,
    report: &RegisterReport,
    process_id: u32,
    steps: Vec<FileChange>,
)
    requires
        call_ensures(rollback, (config, report, process_id), steps),
    ensures
        ({
            let all = changes(steps@);
            let n = all.len() as int;
            &&& report.aggregator_change.prior is None ==> all.take(n - 2) == seq![
                ChangeView::Remove { path: report.aggregator_path@ },
            ]
            &&& report.aggregator_change.prior matches Some(prior) ==> all.take(n - 2)
                == atomic_changes(report.aggregator_path@, prior@, process_id)
            &&& report.module_prior matches Some(prior) ==> all.skip(n - 2) == atomic_changes(
                report.module_file@,
                prior@,
                process_id,
            )
            &&& report.module_prior is None ==> all[n - 1] == (ChangeView::SetAside {
                path: report.module_file@,
                dest: quarantine_path(config@, report.module_file@),
            })
        }),
{
    let all = changes(steps@);
    let restored = restoration_changes(
        report.aggregator_path@,
        report.aggregator_change@,
        process_id,
    );
    assert(all == rollback_changes(config@, report@, process_id));
    assert(all.take(all.len() - 2) =~= restored);
    match report.module_prior {
        Some(prior) => {
            assert(all.skip(all.len() - 2) =~= atomic_changes(
                report.module_file@,
                prior@,
                process_id,
            ));
        },
        None => {},
    }
}

/// The place that is told of a failed module is the one it is moved to: under its own
/// name in the directory of failed modules, which is created before.
#[allow(dead_code)]
fn law_the_place_of_a_failed_module_is_told(
    list: &mut Vec<FileChange>,
    config: &NixosApplyConfig,
    module_file: &str,
) -> (dest: String)
    ensures
        changes(final(list)@).take(old(list)@.len() as int) == changes(old(list)@),
        changes(final(list)@).skip(old(list)@.len() as int) == seq![
            ChangeView::CreateDirAll {
                path: joined_path(config.generated_modules_dir@, "failed"@),
            },
            ChangeView::SetAside { path: module_file@, dest: dest@ },
        ],
        file_name_of(module_file@) matches Some(name) ==> dest@ == joined_path(
            joined_path(config.generated_modules_dir@, "failed"@),
            name,
        ),
{
    let ghost n = list@.len() as int;
    let ghost first = changes(list@);
    let dest = quarantine_module(list, config, module_file);
    proof {
        assert(first.len() == n);
        assert(changes(list@).take(n) =~= first);
        assert(changes(list@).skip(n) =~= quarantine_changes(config@, module_file@));
    }
    dest
}

} // verus!
