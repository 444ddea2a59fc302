//! Laws of an installation: a system that is not wired up is not touched, and an
//! installation that goes through leaves the module imported.

use vstd::prelude::*;

use crate::install::aggregator::{backup_path, is_registered, registration_changes, registration_record};
use crate::install::config::{config_for, generated_dir, ConfigView, NixosApplyConfig};
use crate::install::error::{ErrorView, InstallError};
use crate::install::files::{
    after, after_all, atomic_changes, content_at, temp_path, ChangeView, FileChange, Files, ReadView,
};
use crate::install::normalize::accepted;
use crate::install::packages::packages_in;
use crate::install::provenance::module_text;
use crate::install::register::{
    register_follow, register_module, register_queue, register_start, GoalView, JobView,
    PendingChange, PendingRead, ReadWait, RegisterReport, RegisterState, RegisterStep, RegisterView,
    ThenView,
};
use crate::install::root::{imports_aggregator, root_fault};
use crate::laws::aggregator::{law_registration_is_idempotent, listable, registered};
use crate::laws::files::{
    law_atomic_write_takes_effect, law_registration_takes_effect, lemma_after_all_add,
    lemma_after_all_first, lemma_after_one, lemma_backup_path, lemma_temp_path, same_but,
};
use crate::paths::{joined_path, parent_of};
use crate::plan::{Plan, PlanView};
use crate::text::texts;

verus! {

// ── Carrying an installation out ────────────────────────────────────────────

/// An installation under way on a system.
#[verifier::ext_equal]
pub struct RegisterRun {
    pub state: RegisterState,
    pub files: Files,
}

/// What reading a path gives.
pub open spec fn read_at(files: Files, path: Seq<char>) -> ReadView {
    match content_at(files, path) {
        Some(content) => ReadView::Content(content),
        None => ReadView::Missing,
    }
}

impl RegisterRun {
    /// One step, on a system where every read and every change succeeds.
    pub open spec fn stepped(self) -> RegisterRun {
        match self.state {
            RegisterState::Read(wait) => RegisterRun {
                state: wait.on_read(read_at(self.files, wait.path())),
                files: self.files,
            },
            RegisterState::Change(wait) => RegisterRun {
                state: wait.on_change(None),
                files: after(self.files, wait.change()),
            },
            _ => self,
        }
    }

    /// That many steps.
    pub open spec fn carried_out(self, steps: nat) -> RegisterRun
        decreases steps,
    {
        if steps == 0 {
            self
        } else {
            self.stepped().carried_out((steps - 1) as nat)
        }
    }
}

/// What an installation of a normalized module has to do.
pub open spec fn job_of(
    config: ConfigView,
    plan: PlanView,
    module: Seq<char>,
    process_id: u32,
) -> JobView {
    JobView { config, plan_id: plan.id, prompt: plan.prompt, module, process_id }
}

/// Whether the files that an installation writes beside each other are different
/// files.
pub open spec fn apart(config: ConfigView, plan_id: Seq<char>, process_id: u32) -> bool {
    let module_file = config.module_file(plan_id);
    let aggregator = config.aggregator_path;
    &&& module_file != aggregator
    &&& temp_path(module_file, process_id) != aggregator
    &&& temp_path(aggregator, process_id) != module_file
    &&& backup_path(aggregator) != module_file
}

/// An installation that is over stays so.
proof fn lemma_over(run: RegisterRun, steps: nat)
    requires
        run.state is Finished,
    ensures
        run.carried_out(steps) == run,
    decreases steps,
{
    if steps > 0 {
        lemma_over(run, (steps - 1) as nat);
    }
}

/// A list of changes is carried out one by one.
proof fn lemma_queue(
    job: JobView,
    queue: Seq<ChangeView>,
    next: ThenView,
    files: Files,
    steps: nat,
)
    requires
        steps >= queue.len(),
    ensures
        (RegisterRun { state: register_queue(job, queue, next), files }).carried_out(steps) == (
        RegisterRun {
            state: register_follow(job, next),
            files: after_all(files, queue),
        }).carried_out((steps - queue.len()) as nat),
    decreases queue.len(),
{
    if queue.len() > 0 {
        lemma_after_all_first(files, queue);
        lemma_queue(
            job,
            queue.drop_first(),
            next,
            after(files, queue.first()),
            (steps - 1) as nat,
        );
    }
}

/// Every installation is over after at most this many steps.
pub open spec fn step_bound() -> nat {
    10
}

// ── Answers ─────────────────────────────────────────────────────────────────

/// An installation begins with the root configuration, if the module is accepted;
/// otherwise it is refused with the reason, and nothing is read or changed.
pub proof fn law_installation_begins_with_the_root(
    config: &NixosApplyConfig,
    plan: &Plan,
    process_id: u32,
    step: RegisterStep,
)
    requires
        call_ensures(register_module, (config, plan, process_id), step),
    ensures
        match accepted(plan.module_source@) {
            Ok(module) => step matches RegisterStep::Read(next) && {
                &&& next@.job == (JobView {
                    config: config@,
                    plan_id: plan.id@,
                    prompt: plan.prompt@,
                    module,
                    process_id,
                })
                &&& next@.goal is Root
            },
            Err(message) => step matches RegisterStep::Finished(Err(InstallError::Normalize(m)))
                && m@ == message,
        },
{
}

/// What is read: the root configuration, then the module file, then the aggregator.
pub proof fn law_files_are_read_where_they_lie(pending: &PendingRead, path: String)
    requires
        call_ensures(PendingRead::path, (pending,), path),
    ensures
        path@ == match pending@.goal {
            GoalView::Root => pending@.job.config.root_config_path,
            GoalView::Module => joined_path(
                pending@.job.config.generated_modules_dir,
                pending@.job.plan_id + ".nix"@,
            ),
            GoalView::Aggregator { module_prior } => pending@.job.config.aggregator_path,
        },
{
}

/// A root configuration that imports the generated modules lets the installation go
/// on: the directory of the modules is made, and then the module file is read. Any
/// other ends it.
pub proof fn law_only_an_importing_root_lets_it_go_on(
    pending: PendingRead,
    outcome: Result<Option<String>, String>,
    step: RegisterStep,
)
    requires
        call_ensures(PendingRead::read, (pending, outcome), step),
        pending@.goal is Root,
    ensures
        ({
            let good = outcome matches Ok(Some(content)) && imports_aggregator(content@);
            &&& good ==> (step matches RegisterStep::Change(next) && {
                &&& next@.job == pending@.job
                &&& next@.queue == seq![
                    ChangeView::CreateDirAll { path: pending@.job.config.generated_modules_dir },
                ]
                &&& next@.next is ReadModule
            })
            &&& !good ==> (step matches RegisterStep::Finished(r) && r is Err)
        }),
{
}

/// The module file is written in one stroke, behind its provenance comment, and what
/// it held before is remembered; the directory of the aggregator is made, and then
/// the aggregator is read. Where the module file cannot be read, the installation
/// ends with its path and the reason.
pub proof fn law_the_module_is_written_and_the_old_one_remembered(
    pending: PendingRead,
    outcome: Result<Option<String>, String>,
    step: RegisterStep,
)
    requires
        call_ensures(PendingRead::read, (pending, outcome), step),
        pending@.goal is Module,
    ensures
        ({
            let job = pending@.job;
            let file = joined_path(job.config.generated_modules_dir, job.plan_id + ".nix"@);
            let temp = temp_path(file, job.process_id);
            let write = seq![
                ChangeView::Write {
                    path: temp,
                    content: module_text(job.plan_id, job.prompt, job.module),
                },
                ChangeView::Commit { temp, path: file },
            ];
            match outcome {
                Ok(old_content) => step matches RegisterStep::Change(next) && {
                    &&& next@.job == job
                    &&& next@.queue == match parent_of(job.config.aggregator_path) {
                        Some(dir) => write.push(ChangeView::CreateDirAll { path: dir }),
                        None => write,
                    }
                    &&& next@.next matches ThenView::ReadAggregator { module_prior } && {
                        &&& old_content is None ==> module_prior is None
                        &&& old_content matches Some(content) ==> module_prior == Some(content@)
                    }
                },
                Err(message) => step matches RegisterStep::Finished(
                    Err(InstallError::Io { path, source }),
                ) && path@ == file && source@ == message@,
            }
        }),
{
    let job = pending@.job;
    let file = joined_path(job.config.generated_modules_dir, job.plan_id + ".nix"@);
    let temp = temp_path(file, job.process_id);
    let write = seq![
        ChangeView::Write {
            path: temp,
            content: module_text(job.plan_id, job.prompt, job.module),
        },
        ChangeView::Commit { temp, path: file },
    ];
    match parent_of(job.config.aggregator_path) {
        Some(dir) => {
            let more = ChangeView::CreateDirAll { path: dir };
            assert(write + seq![more] =~= write.push(more));
        },
        None => {
            assert(write + Seq::<ChangeView>::empty() =~= write);
        },
    }
}

/// Whether a report is that of an installation.
pub open spec fn reports(
    job: JobView,
    module_prior: Option<Seq<char>>,
    prior: Option<Seq<char>>,
    report: RegisterView,
) -> bool {
    &&& report.module_file == joined_path(
        job.config.generated_modules_dir,
        job.plan_id + ".nix"@,
    )
    &&& report.aggregator_path == job.config.aggregator_path
    &&& report.root_config_path == job.config.root_config_path
    &&& report.packages == packages_in(job.module)
    &&& report.module_prior == module_prior
    &&& report.aggregator_change == registration_record(
        job.config.aggregator_path,
        job.plan_id,
        prior,
    )
    &&& report.plan_id == job.plan_id
    &&& report.prompt == job.prompt
    &&& report.normalized_source == job.module
}

/// The module is registered in the aggregator that was read, and then the
/// installation ends with its report; at once, where there is nothing to change.
/// Where the aggregator cannot be read, it ends with its path and the reason.
pub proof fn law_the_module_is_registered_and_reported(
    pending: PendingRead,
    outcome: Result<Option<String>, String>,
    step: RegisterStep,
    remembered: Option<Seq<char>>,
)
    requires
        call_ensures(PendingRead::read, (pending, outcome), step),
        pending@.goal == (GoalView::Aggregator { module_prior: remembered }),
    ensures
        ({
            let job = pending@.job;
            let path = job.config.aggregator_path;
            match outcome {
                Ok(old_content) => {
                    let prior = match old_content {
                        Some(content) => Some(content@),
                        None => None,
                    };
                    let list = registration_changes(path, job.plan_id, prior, job.process_id);
                    &&& list.len() > 0 ==> (step matches RegisterStep::Change(next) && {
                        &&& next@.job == job
                        &&& next@.queue == list
                        &&& next@.next == (ThenView::Report {
                            module_prior: remembered,
                            change: registration_record(path, job.plan_id, prior),
                        })
                    })
                    &&& list.len() == 0 ==> (step matches RegisterStep::Finished(Ok(report))
                        && reports(job, remembered, prior, report@))
                },
                Err(message) => step matches RegisterStep::Finished(
                    Err(InstallError::Io { path: p, source }),
                ) && p@ == path && source@ == message@,
            }
        }),
{
}

/// Changes are made one after the other, and then the next file is read or the
/// installation is reported. One that fails ends the installation with its path and
/// the reason.
pub proof fn law_changes_of_an_installation_are_made_one_by_one(
    pending: PendingChange,
    outcome: Result<(), String>,
    step: RegisterStep,
)
    requires
        call_ensures(PendingChange::changed, (pending, outcome), step),
        pending@.queue.len() > 0,
    ensures
        outcome is Ok && pending@.queue.len() > 1 ==> (step matches RegisterStep::Change(next) && {
            &&& next@.job == pending@.job
            &&& next@.queue == pending@.queue.skip(1)
            &&& next@.next == pending@.next
        }),
        outcome is Ok && pending@.queue.len() == 1 ==> match pending@.next {
            ThenView::ReadModule => step matches RegisterStep::Read(next) && next@.job
                == pending@.job && next@.goal is Module,
            ThenView::ReadAggregator { module_prior } => step matches RegisterStep::Read(next)
                && next@.job == pending@.job && next@.goal == (GoalView::Aggregator {
                module_prior,
            }),
            ThenView::Report { module_prior, change } => step matches RegisterStep::Finished(
                Ok(report),
            ) && forall|prior: Option<Seq<char>>|
                change == #[trigger] registration_record(
                    pending@.job.config.aggregator_path,
                    pending@.job.plan_id,
                    prior,
                ) ==> reports(pending@.job, module_prior, prior, report@),
        },
        outcome matches Err(message) ==> (step matches RegisterStep::Finished(
            Err(InstallError::Io { path, source }),
        ) && path@ == pending@.queue[0].subject() && source@ == message@),
{
    assert(pending@.queue.drop_first() =~= pending@.queue.skip(1));
}

// ── A system that is not wired up ───────────────────────────────────────────

/// No file is changed before the root configuration is known to import the
/// aggregator, whatever reading it gives.
pub proof fn law_root_is_checked_before_any_change(
    config: ConfigView,
    plan: PlanView,
    process_id: u32,
    read: ReadView,
)
    ensures
        match register_start(config, plan, process_id) {
            RegisterState::Read(wait) => {
                &&& wait.path() == config.root_config_path
                &&& wait.on_read(read) is Change <==> {
                    read matches ReadView::Content(content) && imports_aggregator(content)
                }
            },
            RegisterState::Change(_) => false,
            _ => true,
        },
{
}

/// An installation that is refused, because the module is not accepted or
/// the root configuration does not import the aggregator, leaves every file as
/// it was, and says why.
pub proof fn law_refused_installation_changes_nothing(
    config: ConfigView,
    plan: PlanView,
    process_id: u32,
    files: Files,
    steps: nat,
)
    requires
        steps >= step_bound(),
        accepted(plan.module_source) is Err || root_fault(
            config,
            read_at(files, config.root_config_path),
        ) is Some,
    ensures
        ({
            let start = RegisterRun { state: register_start(config, plan, process_id), files };
            let end = start.carried_out(steps);
            &&& end.files == files
            &&& end.state == RegisterState::Finished(
                Err(
                    match accepted(plan.module_source) {
                        Err(message) => ErrorView::Normalize(message),
                        Ok(_) => root_fault(config, read_at(files, config.root_config_path))->0,
                    },
                ),
            )
        }),
{
    let start = RegisterRun { state: register_start(config, plan, process_id), files };
    match accepted(plan.module_source) {
        Err(_) => lemma_over(start, steps),
        Ok(_) => lemma_over(start.stepped(), (steps - 1) as nat),
    }
}

// ── An installation that goes through ───────────────────────────────────────

/// What the steps of an installation do to the files, from the check of the root
/// configuration on.
proof fn lemma_installed(job: JobView, files: Files, steps: nat)
    requires
        steps >= step_bound(),
        apart(job.config, job.plan_id, job.process_id),
        root_fault(job.config, read_at(files, job.config.root_config_path)) is None,
    ensures
        ({
            let start = RegisterRun {
                state: RegisterState::Read(ReadWait { job, goal: GoalView::Root }),
                files,
            };
            let end = start.carried_out(steps);
            let module_prior = content_at(files, job.module_file());
            let prior = content_at(files, job.config.aggregator_path);
            let written = after_all(
                files,
                atomic_changes(job.module_file(), job.module_content(), job.process_id),
            );
            &&& end.state == RegisterState::Finished(
                Ok(
                    job.report(
                        module_prior,
                        registration_record(job.config.aggregator_path, job.plan_id, prior),
                    ),
                ),
            )
            &&& end.files == after_all(
                written,
                registration_changes(
                    job.config.aggregator_path,
                    job.plan_id,
                    prior,
                    job.process_id,
                ),
            )
        }),
{
    let config = job.config;
    let start = RegisterRun {
        state: RegisterState::Read(ReadWait { job, goal: GoalView::Root }),
        files,
    };
    // The root configuration is read, and the directory made.
    let make_dir = seq![ChangeView::CreateDirAll { path: config.generated_modules_dir }];
    let n1 = (steps - 1) as nat;
    lemma_queue(job, make_dir, ThenView::ReadModule, files, n1);
    lemma_after_one(files, make_dir[0]);
    // The module file is read and written.
    let run2 = RegisterRun { state: register_follow(job, ThenView::ReadModule), files };
    assert(start.carried_out(steps) == run2.carried_out((steps - 2) as nat));
    let module_prior = content_at(files, job.module_file());
    let write = atomic_changes(job.module_file(), job.module_content(), job.process_id);
    let install = job.install_changes();
    let next3 = ThenView::ReadAggregator { module_prior };
    let n3 = (steps - 3) as nat;
    lemma_queue(job, install, next3, files, n3);
    let written = after_all(files, write);
    assert(after_all(files, install) == written) by {
        match parent_of(config.aggregator_path) {
            Some(dir) => {
                let make_parent = ChangeView::CreateDirAll { path: dir };
                lemma_after_all_add(files, write, seq![make_parent]);
                lemma_after_one(written, make_parent);
            },
            None => {
                assert(install =~= write);
            },
        }
    }
    // The aggregator is read and extended.
    let run4 = RegisterRun { state: register_follow(job, next3), files: written };
    let n4 = (n3 - install.len()) as nat;
    assert(run2.stepped() == (RegisterRun { state: register_queue(job, install, next3), files }));
    assert(run2.carried_out((steps - 2) as nat) == run4.carried_out(n4));
    law_atomic_write_takes_effect(
        files,
        job.module_file(),
        job.module_content(),
        job.process_id,
    );
    let prior = content_at(files, config.aggregator_path);
    assert(content_at(written, config.aggregator_path) == prior);
    let update = registration_changes(config.aggregator_path, job.plan_id, prior, job.process_id);
    let next5 = ThenView::Report {
        module_prior,
        change: registration_record(config.aggregator_path, job.plan_id, prior),
    };
    assert(run4.stepped() == (RegisterRun {
        state: register_queue(job, update, next5),
        files: written,
    }));
    let n5 = (n4 - 1) as nat;
    lemma_queue(job, update, next5, written, n5);
    let last = RegisterRun {
        state: register_follow(job, next5),
        files: after_all(written, update),
    };
    lemma_over(last, (n5 - update.len()) as nat);
}

/// What an installation that goes through leaves behind. Its report holds what
/// was at the module file and in the aggregator before. The module file holds the
/// module behind its provenance comment, the aggregator imports it, a replaced
/// aggregator is backed up, and every other file is as it was.
pub proof fn law_installation_takes_effect(
    config: ConfigView,
    plan: PlanView,
    module: Seq<char>,
    process_id: u32,
    files: Files,
    steps: nat,
)
    requires
        accepted(plan.module_source) == Ok::<Seq<char>, Seq<char>>(module),
        root_fault(config, read_at(files, config.root_config_path)) is None,
        apart(config, plan.id, process_id),
        steps >= step_bound(),
    ensures
        ({
            let start = RegisterRun { state: register_start(config, plan, process_id), files };
            let end = start.carried_out(steps);
            let job = job_of(config, plan, module, process_id);
            let module_prior = content_at(files, job.module_file());
            let prior = content_at(files, config.aggregator_path);
            &&& end.state == RegisterState::Finished(
                Ok(
                    job.report(
                        module_prior,
                        registration_record(config.aggregator_path, plan.id, prior),
                    ),
                ),
            )
            &&& content_at(end.files, job.module_file()) == Some(job.module_content())
            &&& content_at(end.files, config.aggregator_path) == registered(prior, plan.id)
            &&& listable(plan.id) ==> is_registered(
                content_at(end.files, config.aggregator_path),
                plan.id,
            )
            &&& prior is Some && !is_registered(prior, plan.id) ==> content_at(
                end.files,
                backup_path(config.aggregator_path),
            ) == prior
            &&& same_but(
                end.files,
                files,
                set![
                    job.module_file(),
                    temp_path(job.module_file(), process_id),
                    config.aggregator_path,
                    temp_path(config.aggregator_path, process_id),
                    backup_path(config.aggregator_path),
                ],
            )
        }),
{
    let job = job_of(config, plan, module, process_id);
    let start = RegisterRun { state: register_start(config, plan, process_id), files };
    lemma_installed(job, files, steps);
    let end = start.carried_out(steps);
    let prior = content_at(files, config.aggregator_path);
    let temp = temp_path(job.module_file(), process_id);
    let written = after_all(
        files,
        atomic_changes(job.module_file(), job.module_content(), process_id),
    );
    law_atomic_write_takes_effect(files, job.module_file(), job.module_content(), process_id);
    lemma_temp_path(job.module_file(), process_id);
    law_registration_takes_effect(written, config.aggregator_path, plan.id, process_id);
    assert(content_at(written, config.aggregator_path) == prior);
    assert(content_at(end.files, job.module_file()) == content_at(written, job.module_file()));
    let touched = set![
        job.module_file(),
        temp,
        config.aggregator_path,
        temp_path(config.aggregator_path, process_id),
        backup_path(config.aggregator_path),
    ];
    assert forall|p: Seq<char>| !touched.contains(p) implies #[trigger] content_at(end.files, p)
        == content_at(files, p) by {
        assert(content_at(end.files, p) == content_at(written, p));
    }
    if listable(plan.id) {
        law_registration_is_idempotent(config.aggregator_path, prior, plan.id, process_id);
    }
}

// ── Paths ───────────────────────────────────────────────────────────────────

/// A joined path ends as the joined part does.
proof fn lemma_joined_last(base: Seq<char>, rel: Seq<char>)
    requires
        rel.len() > 0,
    ensures
        joined_path(base, rel).len() > 0,
        joined_path(base, rel).last() == rel.last(),
{
}

/// With paths derived from one configuration directory, the files of an
/// installation are different files, unless the plan takes the name of the
/// aggregator itself.
pub proof fn law_derived_paths_are_apart(
    config_dir: Seq<char>,
    root_config: Option<Seq<char>>,
    plan_id: Seq<char>,
    process_id: u32,
)
    requires
        config_for(config_dir, root_config).module_file(plan_id) != config_for(
            config_dir,
            root_config,
        ).aggregator_path,
    ensures
        apart(config_for(config_dir, root_config), plan_id, process_id),
{
    reveal_strlit(".nix");
    reveal_strlit("default.nix");
    let config = config_for(config_dir, root_config);
    lemma_joined_last(generated_dir(config_dir), "default.nix"@);
    lemma_joined_last(generated_dir(config_dir), plan_id + ".nix"@);
    lemma_temp_path(config.module_file(plan_id), process_id);
    lemma_temp_path(config.aggregator_path, process_id);
    lemma_backup_path(config.aggregator_path);
}

/// The change to be made is the first of those that are left.
pub proof fn law_the_next_change_is_shown(pending: &PendingChange, change: &FileChange)
    requires
        call_ensures(PendingChange::change, (pending,), change),
    ensures
        change@ == pending@.queue[0],
{
}

/// A copy of a report says the same.
pub proof fn law_copies_of_reports_say_the_same(report: &RegisterReport, copy: RegisterReport)
    requires
        call_ensures(RegisterReport::clone, (report,), copy),
    ensures
        copy.module_file@ == report.module_file@,
        copy.aggregator_path@ == report.aggregator_path@,
        copy.root_config_path@ == report.root_config_path@,
        texts(copy.packages@) == texts(report.packages@),
        copy.module_prior is Some <==> report.module_prior is Some,
        report.module_prior matches Some(prior) ==> copy.module_prior->0@ == prior@,
        copy.aggregator_change@ == report.aggregator_change@,
        copy.plan_id@ == report.plan_id@,
        copy.prompt@ == report.prompt@,
        copy.normalized_source@ == report.normalized_source@,
{
    assert(copy@ == report@);
    assert(copy@.module_prior == report@.module_prior);
}

} // verus!
