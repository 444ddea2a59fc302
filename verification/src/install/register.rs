//! Installing a module: the root configuration is checked, the module file is
//! written, and the aggregator is made to import it.
//!
//! The installation is driven from outside. [`register_module`] and each answer
//! give the next [`RegisterStep`]: a file to read, a change to make, or the end.

use vstd::prelude::*;
use vstd::string::*;

use crate::install::aggregator::{
    register_in_aggregator, registration_changes, registration_record, text_in, AggregatorChange,
    AggregatorView,
};
use crate::install::config::{ConfigView, NixosApplyConfig};
use crate::install::error::{ErrorView, InstallError};
use crate::install::files::{
    atomic_changes, atomic_write, changes, read_view, ChangeView, FileChange, ReadView,
};
use crate::install::normalize::{accept_module, accepted};
use crate::install::packages::{packages_in, parse_system_packages};
use crate::install::provenance::{module_text, render_module};
use crate::install::root::{root_fault, verify_root_config};
use crate::paths::{parent_dir, parent_of};
use crate::plan::{Plan, PlanView};
use crate::text::texts;

verus! {

/// What an installation did, and what undoing it takes.
#[derive(Debug)]
pub struct RegisterReport {
    /// Where the module was installed.
    pub module_file: String,
    pub aggregator_path: String,
    pub root_config_path: String,
    /// The plain package names that the module installs.
    pub packages: Vec<String>,
    /// What the module file held before, if it was there.
    pub module_prior: Option<String>,
    pub aggregator_change: AggregatorChange,
    pub plan_id: String,
    pub prompt: String,
    /// The installed module without its provenance comment.
    pub normalized_source: String,
}

/// A [`RegisterReport`] with its texts.
#[verifier::ext_equal]
pub struct RegisterView {
    pub module_file: Seq<char>,
    pub aggregator_path: Seq<char>,
    pub root_config_path: Seq<char>,
    pub packages: Seq<Seq<char>>,
    pub module_prior: Option<Seq<char>>,
    pub aggregator_change: AggregatorView,
    pub plan_id: Seq<char>,
    pub prompt: Seq<char>,
    pub normalized_source: Seq<char>,
}

impl View for RegisterReport {
    type V = RegisterView;

    open spec fn view(&self) -> RegisterView {
        RegisterView {
            module_file: self.module_file@,
            aggregator_path: self.aggregator_path@,
            root_config_path: self.root_config_path@,
            packages: texts(self.packages@),
            module_prior: text_in(self.module_prior),
            aggregator_change: self.aggregator_change@,
            plan_id: self.plan_id@,
            prompt: self.prompt@,
            normalized_source: self.normalized_source@,
        }
    }
}

impl Clone for RegisterReport {
    fn clone(&self) -> (r: RegisterReport)
        ensures
            r@ == self@,
    {
        let packages = self.packages.clone();
        assert(texts(packages@) =~= texts(self.packages@));
        RegisterReport {
            module_file: self.module_file.clone(),
            aggregator_path: self.aggregator_path.clone(),
            root_config_path: self.root_config_path.clone(),
            packages,
            module_prior: self.module_prior.clone(),
            aggregator_change: self.aggregator_change.clone(),
            plan_id: self.plan_id.clone(),
            prompt: self.prompt.clone(),
            normalized_source: self.normalized_source.clone(),
        }
    }
}

// ── The course of an installation ───────────────────────────────────────────

/// What stays the same throughout an installation.
#[verifier::ext_equal]
pub struct JobView {
    pub config: ConfigView,
    pub plan_id: Seq<char>,
    pub prompt: Seq<char>,
    /// The module, normalized.
    pub module: Seq<char>,
    pub process_id: u32,
}

/// Why a file is read.
pub enum GoalView {
    /// To check the root configuration.
    Root,
    /// To remember the module that is about to be replaced.
    Module,
    /// To extend the aggregator; the module file held `module_prior`.
    Aggregator { module_prior: Option<Seq<char>> },
}

/// What follows a list of changes.
pub enum ThenView {
    ReadModule,
    ReadAggregator { module_prior: Option<Seq<char>> },
    Report { module_prior: Option<Seq<char>>, change: AggregatorView },
}

/// An installation in which a file is to be read.
pub struct ReadWait {
    pub job: JobView,
    pub goal: GoalView,
}

/// An installation in which the first of `queue` is to be made.
pub struct ChangeWait {
    pub job: JobView,
    pub queue: Seq<ChangeView>,
    pub next: ThenView,
}

/// A state of an installation.
pub enum RegisterState {
    /// A file is to be read.
    Read(ReadWait),
    /// A change is to be made.
    Change(ChangeWait),
    /// The installation is over.
    Finished(Result<RegisterView, ErrorView>),
}

impl JobView {
    /// Where the module goes.
    pub open spec fn module_file(self) -> Seq<char> {
        self.config.module_file(self.plan_id)
    }

    /// What the module file will hold.
    pub open spec fn module_content(self) -> Seq<char> {
        module_text(self.plan_id, self.prompt, self.module)
    }

    /// The changes that install the module file, and make room for the
    /// aggregator.
    pub open spec fn install_changes(self) -> Seq<ChangeView> {
        atomic_changes(self.module_file(), self.module_content(), self.process_id)
            + match parent_of(self.config.aggregator_path) {
            Some(dir) => seq![ChangeView::CreateDirAll { path: dir }],
            None => Seq::empty(),
        }
    }

    /// The report of a finished installation.
    pub open spec fn report(
        self,
        module_prior: Option<Seq<char>>,
        change: AggregatorView,
    ) -> RegisterView {
        RegisterView {
            module_file: self.module_file(),
            aggregator_path: self.config.aggregator_path,
            root_config_path: self.config.root_config_path,
            packages: packages_in(self.module),
            module_prior,
            aggregator_change: change,
            plan_id: self.plan_id,
            prompt: self.prompt,
            normalized_source: self.module,
        }
    }
}

/// The first state: the module is normalized, then the root configuration is
/// read.
pub open spec fn register_start(config: ConfigView, plan: PlanView, process_id: u32) -> RegisterState {
    match accepted(plan.module_source) {
        Err(m) => RegisterState::Finished(Err(ErrorView::Normalize(m))),
        Ok(module) => RegisterState::Read(
            ReadWait {
                job: JobView {
                    config,
                    plan_id: plan.id,
                    prompt: plan.prompt,
                    module,
                    process_id,
                },
                goal: GoalView::Root,
            },
        ),
    }
}

/// The state behind the last of a list of changes.
pub open spec fn register_follow(job: JobView, next: ThenView) -> RegisterState {
    match next {
        ThenView::ReadModule => RegisterState::Read(ReadWait { job, goal: GoalView::Module }),
        ThenView::ReadAggregator { module_prior } => RegisterState::Read(
            ReadWait { job, goal: GoalView::Aggregator { module_prior } },
        ),
        ThenView::Report { module_prior, change } => RegisterState::Finished(
            Ok(job.report(module_prior, change)),
        ),
    }
}

/// The state in which `queue` is to be made.
pub open spec fn register_queue(job: JobView, queue: Seq<ChangeView>, next: ThenView) -> RegisterState {
    if queue.len() == 0 {
        register_follow(job, next)
    } else {
        RegisterState::Change(ChangeWait { job, queue, next })
    }
}

/// What a file held that could be read.
pub open spec fn found(read: ReadView) -> Option<Seq<char>> {
    match read {
        ReadView::Content(content) => Some(content),
        _ => None,
    }
}

impl ReadWait {
    /// The file that is to be read.
    pub open spec fn path(self) -> Seq<char> {
        match self.goal {
            GoalView::Root => self.job.config.root_config_path,
            GoalView::Module => self.job.module_file(),
            GoalView::Aggregator { module_prior } => self.job.config.aggregator_path,
        }
    }

    /// The state after the file was read.
    pub open spec fn on_read(self, read: ReadView) -> RegisterState {
        let job = self.job;
        match (self.goal, read) {
            (GoalView::Root, _) => match root_fault(job.config, read) {
                Some(e) => RegisterState::Finished(Err(e)),
                None => register_queue(
                    job,
                    seq![ChangeView::CreateDirAll { path: job.config.generated_modules_dir }],
                    ThenView::ReadModule,
                ),
            },
            (_, ReadView::Failed(message)) => RegisterState::Finished(
                Err(ErrorView::Io { path: self.path(), source: message }),
            ),
            (GoalView::Module, _) => register_queue(
                job,
                job.install_changes(),
                ThenView::ReadAggregator { module_prior: found(read) },
            ),
            (GoalView::Aggregator { module_prior }, _) => register_queue(
                job,
                registration_changes(
                    job.config.aggregator_path,
                    job.plan_id,
                    found(read),
                    job.process_id,
                ),
                ThenView::Report {
                    module_prior,
                    change: registration_record(
                        job.config.aggregator_path,
                        job.plan_id,
                        found(read),
                    ),
                },
            ),
        }
    }
}

impl ChangeWait {
    /// The change that is to be made.
    pub open spec fn change(self) -> ChangeView {
        self.queue.first()
    }

    /// The state after the change was tried; `failure` says why it failed.
    pub open spec fn on_change(self, failure: Option<Seq<char>>) -> RegisterState {
        match failure {
            Some(message) => RegisterState::Finished(
                Err(ErrorView::Io { path: self.change().subject(), source: message }),
            ),
            None => register_queue(self.job, self.queue.drop_first(), self.next),
        }
    }
}

// ── Driving it ──────────────────────────────────────────────────────────────

/// What stays the same throughout an installation.
#[derive(Debug)]
struct Job {
    config: NixosApplyConfig,
    plan_id: String,
    prompt: String,
    module: String,
    process_id: u32,
}

impl Job {
    spec fn view(&self) -> JobView {
        JobView {
            config: self.config@,
            plan_id: self.plan_id@,
            prompt: self.prompt@,
            module: self.module@,
            process_id: self.process_id,
        }
    }
}

/// Why a file is read.
#[derive(Debug)]
enum Goal {
    Root,
    Module,
    Aggregator { module_prior: Option<String> },
}

impl Goal {
    spec fn view(&self) -> GoalView {
        match self {
            Goal::Root => GoalView::Root,
            Goal::Module => GoalView::Module,
            Goal::Aggregator { module_prior } => GoalView::Aggregator {
                module_prior: text_in(*module_prior),
            },
        }
    }
}

/// What follows a list of changes.
#[derive(Debug)]
enum Then {
    ReadModule,
    ReadAggregator { module_prior: Option<String> },
    Report { module_prior: Option<String>, change: AggregatorChange },
}

impl Then {
    spec fn view(&self) -> ThenView {
        match self {
            Then::ReadModule => ThenView::ReadModule,
            Then::ReadAggregator { module_prior } => ThenView::ReadAggregator {
                module_prior: text_in(*module_prior),
            },
            Then::Report { module_prior, change } => ThenView::Report {
                module_prior: text_in(*module_prior),
                change: change@,
            },
        }
    }
}

/// The next step of an installation.
#[derive(Debug)]
pub enum RegisterStep {
    /// Read the file at [`PendingRead::path`], and say what it held.
    Read(PendingRead),
    /// Make the change [`PendingChange::change`], and say whether that worked.
    Change(PendingChange),
    /// The installation is over.
    Finished(Result<RegisterReport, InstallError>),
}

/// An installation that waits for a file to be read.
#[derive(Debug)]
pub struct PendingRead {
    job: Job,
    goal: Goal,
}

/// An installation that waits for a change to be made.
#[derive(Debug)]
pub struct PendingChange {
    job: Job,
    change: FileChange,
    rest: Vec<FileChange>,
    next: Then,
}

impl View for PendingRead {
    type V = ReadWait;

    closed spec fn view(&self) -> ReadWait {
        ReadWait { job: self.job.view(), goal: self.goal.view() }
    }
}

impl View for PendingChange {
    type V = ChangeWait;

    closed spec fn view(&self) -> ChangeWait {
        ChangeWait {
            job: self.job.view(),
            queue: seq![self.change@] + changes(self.rest@),
            next: self.next.view(),
        }
    }
}

impl View for RegisterStep {
    type V = RegisterState;

    open spec fn view(&self) -> RegisterState {
        match self {
            RegisterStep::Read(pending) => RegisterState::Read(pending@),
            RegisterStep::Change(pending) => RegisterState::Change(pending@),
            RegisterStep::Finished(outcome) => RegisterState::Finished(
                match outcome {
                    Ok(report) => Ok(report@),
                    Err(e) => Err(e@),
                },
            ),
        }
    }
}

/// The step in which `queue` is to be made.
fn queue_step(job: Job, queue: Vec<FileChange>, next: Then) -> (step: RegisterStep)
    ensures
        step@ == register_queue(job.view(), changes(queue@), next.view()),
{
    let mut queue = queue;
    if queue.len() == 0 {
        match next {
            Then::ReadModule => RegisterStep::Read(PendingRead { job, goal: Goal::Module }),
            Then::ReadAggregator { module_prior } => RegisterStep::Read(
                PendingRead { job, goal: Goal::Aggregator { module_prior } },
            ),
            Then::Report { module_prior, change } => {
                let packages = parse_system_packages(job.module.as_str());
                let module_file = job.config.module_path_for(job.plan_id.as_str());
                RegisterStep::Finished(
                    Ok(
                        RegisterReport {
                            module_file,
                            aggregator_path: job.config.aggregator_path,
                            root_config_path: job.config.root_config_path,
                            packages,
                            module_prior,
                            aggregator_change: change,
                            plan_id: job.plan_id,
                            prompt: job.prompt,
                            normalized_source: job.module,
                        },
                    ),
                )
            },
        }
    } else {
        let ghost all = changes(queue@);
        let change = queue.remove(0);
        assert(seq![change@] + changes(queue@) =~= all);
        RegisterStep::Change(PendingChange { job, change, rest: queue, next })
    }
}

/// Begins to install the module of a plan. The process id tells temporary files
/// of concurrent installations apart.
pub fn register_module(config: &NixosApplyConfig, plan: &Plan, process_id: u32) -> (step:
    RegisterStep)
    ensures
        step@ == register_start(config@, plan@, process_id),
{
    match accept_module(plan.module_source.as_str()) {
        Err(e) => RegisterStep::Finished(Err(e)),
        Ok(module) => {
            let job = Job {
                config: config.clone(),
                plan_id: plan.id.clone(),
                prompt: plan.prompt.clone(),
                module,
                process_id,
            };
            RegisterStep::Read(PendingRead { job, goal: Goal::Root })
        },
    }
}

/// Why a change failed, if it did.
pub open spec fn failure_in(r: Result<(), String>) -> Option<Seq<char>> {
    match r {
        Ok(_) => None,
        Err(message) => Some(message@),
    }
}

impl PendingRead {
    /// The file to read.
    pub fn path(&self) -> (path: String)
        ensures
            path@ == self@.path(),
    {
        match &self.goal {
            Goal::Root => self.job.config.root_config_path.clone(),
            Goal::Module => self.job.config.module_path_for(self.job.plan_id.as_str()),
            Goal::Aggregator { module_prior: _ } => self.job.config.aggregator_path.clone(),
        }
    }

    /// Goes on with what the file held: nothing where it is not there, a message
    /// where it could not be read.
    pub fn read(self, outcome: Result<Option<String>, String>) -> (step: RegisterStep)
        ensures
            step@ == self@.on_read(read_view(outcome)),
    {
        let path = self.path();
        let job = self.job;
        match self.goal {
            Goal::Root => match verify_root_config(&job.config, outcome) {
                Err(e) => RegisterStep::Finished(Err(e)),
                Ok(_) => {
                    let mut queue: Vec<FileChange> = Vec::new();
                    queue.push(
                        FileChange::CreateDirAll { path: job.config.generated_modules_dir.clone() },
                    );
                    assert(changes(queue@) =~= seq![
                        ChangeView::CreateDirAll { path: job.config.generated_modules_dir@ },
                    ]);
                    queue_step(job, queue, Then::ReadModule)
                },
            },
            Goal::Module => match outcome {
                Err(source) => RegisterStep::Finished(Err(InstallError::Io { path, source })),
                Ok(module_prior) => {
                    let text = render_module(
                        job.plan_id.as_str(),
                        job.prompt.as_str(),
                        job.module.as_str(),
                    );
                    let mut queue: Vec<FileChange> = Vec::new();
                    assert(changes(queue@) =~= Seq::<ChangeView>::empty());
                    atomic_write(&mut queue, path.as_str(), text.as_str(), job.process_id);
                    match parent_dir(job.config.aggregator_path.as_str()) {
                        Some(dir) => {
                            queue.push(FileChange::CreateDirAll { path: dir });
                        },
                        None => {},
                    }
                    assert(changes(queue@) =~= job.view().install_changes());
                    queue_step(job, queue, Then::ReadAggregator { module_prior })
                },
            },
            Goal::Aggregator { module_prior } => match outcome {
                Err(source) => RegisterStep::Finished(Err(InstallError::Io { path, source })),
                Ok(prior) => {
                    let update = register_in_aggregator(
                        job.config.aggregator_path.as_str(),
                        job.plan_id.as_str(),
                        prior,
                        job.process_id,
                    );
                    queue_step(
                        job,
                        update.steps,
                        Then::Report { module_prior, change: update.change },
                    )
                },
            },
        }
    }
}

impl PendingChange {
    /// The change to make.
    pub fn change(&self) -> (change: &FileChange)
        ensures
            change@ == self@.change(),
    {
        &self.change
    }

    /// Goes on after the change was made, or could not be made.
    pub fn changed(self, outcome: Result<(), String>) -> (step: RegisterStep)
        ensures
            step@ == self@.on_change(failure_in(outcome)),
    {
        match outcome {
            Err(source) => RegisterStep::Finished(
                Err(InstallError::Io { path: self.change.subject(), source }),
            ),
            Ok(_) => {
                proof {
                    let queue = seq![self.change@] + changes(self.rest@);
                    assert(queue.drop_first() =~= changes(self.rest@));
                }
                queue_step(self.job, self.rest, self.next)
            },
        }
    }
}

} // verus!
