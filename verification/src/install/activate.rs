//! Activating an installed module: the system is rebuilt, and a module that the
//! rebuild rejects is repaired and tried again, a bounded number of times. If
//! every repair fails, the installation is rolled back.
//!
//! The activation is driven from outside. [`activate`] and each answer give the
//! next [`ActivateStep`]: a rebuild to run, a diagnostic to read, a module to
//! have repaired, a file to change, or the end.

use vstd::prelude::*;
use vstd::string::*;

use crate::execution::{boxed_view, BuildErrorView, BuildOutput, NixBuildError};
use crate::install::aggregator::{restoration_changes, restore_aggregator};
use crate::install::config::{ConfigView, NixosApplyConfig};
use crate::install::error::{ErrorView, InstallError};
use crate::install::files::{atomic_changes, atomic_write, changes, ChangeView, FileChange};
use crate::install::normalize::{accept_module, accepted};
use crate::install::provenance::{module_text, render_module};
use crate::install::register::{failure_in, RegisterReport, RegisterView};
use crate::paths::{file_name, file_name_of, join_path, joined_path};

verus! {

/// How many repairs are tried before an activation is given up and rolled back.
pub const MAX_REPAIR_ATTEMPTS: usize = 3;

/// Progress of the repair loop, for a front end to show.
#[derive(Debug, Clone)]
pub enum RepairEvent {
    /// A rebuild failed; repair `attempt` of `max` is about to start.
    Attempt { attempt: usize, max: usize, error: Option<Box<NixBuildError>> },
    /// A repaired module is valid Nix and is about to be built.
    Rebuilding { attempt: usize },
}

/// A [`RepairEvent`] with its texts.
pub enum EventView {
    Attempt { attempt: int, max: int, error: Option<BuildErrorView> },
    Rebuilding { attempt: int },
}

impl View for RepairEvent {
    type V = EventView;

    open spec fn view(&self) -> EventView {
        match self {
            RepairEvent::Attempt { attempt, max, error } => EventView::Attempt {
                attempt: *attempt as int,
                max: *max as int,
                error: boxed_view(*error),
            },
            RepairEvent::Rebuilding { attempt } => EventView::Rebuilding {
                attempt: *attempt as int,
            },
        }
    }
}

/// What a successful activation took.
#[derive(Debug, Clone, PartialEq, Eq, Structural)]
pub struct ActivateReport {
    /// How many repairs it took; none where the first rebuild succeeded.
    pub healing_attempts: usize,
}

impl Default for ActivateReport {
    fn default() -> (report: Self)
        ensures
            report.healing_attempts == 0,
    {
        ActivateReport { healing_attempts: 0 }
    }
}

// ── Rollback ────────────────────────────────────────────────────────────────

/// Where a module that failed is kept.
pub open spec fn quarantine_path(config: ConfigView, module_file: Seq<char>) -> Seq<char> {
    joined_path(
        joined_path(config.generated_modules_dir, "failed"@),
        match file_name_of(module_file) {
            Some(name) => name,
            None => "module.nix"@,
        },
    )
}

/// The changes that put a failed module out of the aggregator's reach.
pub open spec fn quarantine_changes(config: ConfigView, module_file: Seq<char>) -> Seq<ChangeView> {
    seq![
        ChangeView::CreateDirAll { path: joined_path(config.generated_modules_dir, "failed"@) },
        ChangeView::SetAside { path: module_file, dest: quarantine_path(config, module_file) },
    ]
}

/// The changes that undo an installation: the aggregator is put back; the module
/// file gets its previous content, or is put out of reach where it was new.
pub open spec fn rollback_changes(
    config: ConfigView,
    report: RegisterView,
    process_id: u32,
) -> Seq<ChangeView> {
    restoration_changes(report.aggregator_path, report.aggregator_change, process_id)
        + match report.module_prior {
        Some(prior) => atomic_changes(report.module_file, prior, process_id),
        None => quarantine_changes(config, report.module_file),
    }
}

/// Appends the changes that move a failed module to the `failed` directory, out
/// of the aggregator's reach but kept for inspection. Returns its new path.
pub fn quarantine_module(
    list: &mut Vec<FileChange>,
    config: &NixosApplyConfig,
    module_file: &str,
) -> (dest: String)
    ensures
        changes(final(list)@) == changes(old(list)@) + quarantine_changes(config@, module_file@),
        dest@ == quarantine_path(config@, module_file@),
{
    let failed_dir = join_path(config.generated_modules_dir.as_str(), "failed");
    let name = match file_name(module_file) {
        Some(name) => name,
        None => "module.nix".to_owned(),
    };
    let dest = join_path(failed_dir.as_str(), name.as_str());
    list.push(FileChange::CreateDirAll { path: failed_dir });
    list.push(FileChange::SetAside { path: module_file.to_owned(), dest: dest.clone() });
    assert(changes(list@) =~= changes(old(list)@) + quarantine_changes(config@, module_file@));
    dest
}

/// The changes that undo an installation, for when every repair has failed.
pub fn rollback(config: &NixosApplyConfig, report: &RegisterReport, process_id: u32) -> (steps: Vec<
    FileChange,
>)
    ensures
        changes(steps@) == rollback_changes(config@, report@, process_id),
{
    let mut steps = restore_aggregator(
        report.aggregator_path.as_str(),
        &report.aggregator_change,
        process_id,
    );
    match &report.module_prior {
        Some(prior) => {
            atomic_write(&mut steps, report.module_file.as_str(), prior.as_str(), process_id);
        },
        None => {
            let _ = quarantine_module(&mut steps, config, report.module_file.as_str());
        },
    }
    steps
}

// ── The course of an activation ─────────────────────────────────────────────

/// What an activation carries along.
#[verifier::ext_equal]
pub struct HealingView {
    pub config: ConfigView,
    pub report: RegisterView,
    pub process_id: u32,
    /// The installed module without its provenance comment.
    pub module: Seq<char>,
    /// How many repairs were asked for.
    pub repairs: int,
}

/// What follows a list of changes.
pub enum AfterView {
    /// The repaired module is built.
    Rebuild,
    /// The activation ends with the rejection of the last build.
    GiveUp { parsed: Option<BuildErrorView>, stderr: Seq<char> },
}

/// An activation in which a diagnostic is to be read out of `stderr`.
pub struct DiagnosisWait {
    pub healing: HealingView,
    pub stderr: Seq<char>,
}

/// An activation in which the module is to be repaired.
pub struct RepairWait {
    pub healing: HealingView,
    pub stderr: Seq<char>,
    pub error: Option<BuildErrorView>,
}

/// An activation in which the first of `queue` is to be made.
pub struct WriteWait {
    pub healing: HealingView,
    pub queue: Seq<ChangeView>,
    pub next: AfterView,
}

/// A state of an activation.
pub enum ActivateState {
    /// The system is to be rebuilt.
    Build(HealingView),
    /// The output of a failed build is to be read.
    Diagnose(DiagnosisWait),
    /// The module is to be repaired.
    Repair(RepairWait),
    /// A file is to be changed.
    Change(WriteWait),
    /// The activation is over: the number of repairs it took, or the error.
    Finished(Result<int, ErrorView>),
}

/// The outcome of a rebuild: that it succeeded, what it printed where it was
/// rejected, or why it could not be run.
pub enum BuildView {
    Accepted,
    Rejected(Seq<char>),
    Broken(Seq<char>),
}

/// The outcome that the result of a rebuild stands for.
pub open spec fn build_view(r: Result<BuildOutput, String>) -> BuildView {
    match r {
        Ok(output) => if output.success {
            BuildView::Accepted
        } else {
            BuildView::Rejected(output.stderr@)
        },
        Err(message) => BuildView::Broken(message@),
    }
}

/// The outcome of a repair as texts.
pub open spec fn repair_view(r: Result<String, String>) -> Result<Seq<char>, Seq<char>> {
    match r {
        Ok(raw) => Ok(raw@),
        Err(message) => Err(message@),
    }
}

/// The view of a diagnostic, if there is one.
pub open spec fn diagnosis_view(e: Option<NixBuildError>) -> Option<BuildErrorView> {
    match e {
        Some(d) => Some(d@),
        None => None,
    }
}

/// What stands in for the output of a build where a repaired module is not even
/// valid Nix.
pub open spec fn gate_message(reason: Seq<char>) -> Seq<char> {
    "error: regenerated module did not pass the AST gate: "@ + reason
}

/// The first state: the installed module is built.
pub open spec fn activate_start(
    config: ConfigView,
    report: RegisterView,
    process_id: u32,
) -> ActivateState {
    ActivateState::Build(
        HealingView { config, report, process_id, module: report.normalized_source, repairs: 0 },
    )
}

/// The state in which `queue` is to be made.
pub open spec fn activate_queue(
    healing: HealingView,
    queue: Seq<ChangeView>,
    next: AfterView,
) -> ActivateState {
    if queue.len() == 0 {
        match next {
            AfterView::Rebuild => ActivateState::Build(healing),
            AfterView::GiveUp { parsed, stderr } => ActivateState::Finished(
                Err(ErrorView::Rebuild { parsed, stderr }),
            ),
        }
    } else {
        ActivateState::Change(WriteWait { healing, queue, next })
    }
}

impl HealingView {
    /// What the module file holds once `module` is installed.
    pub open spec fn content(self, module: Seq<char>) -> Seq<char> {
        module_text(self.report.plan_id, self.report.prompt, module)
    }

    /// The event that goes before a build.
    pub open spec fn event(self) -> Option<EventView> {
        if self.repairs > 0 {
            Some(EventView::Rebuilding { attempt: self.repairs })
        } else {
            None
        }
    }

    /// The state after a build: only one that succeeded ends well.
    pub open spec fn on_built(self, outcome: BuildView) -> ActivateState {
        match outcome {
            BuildView::Accepted => ActivateState::Finished(Ok(self.repairs)),
            BuildView::Rejected(stderr) => ActivateState::Diagnose(
                DiagnosisWait { healing: self, stderr },
            ),
            BuildView::Broken(message) => ActivateState::Finished(Err(ErrorView::Engine(message))),
        }
    }
}

impl DiagnosisWait {
    /// The state after the diagnostic was read: one more repair, or the rollback.
    pub open spec fn on_diagnosed(self, error: Option<BuildErrorView>) -> ActivateState {
        let healing = self.healing;
        if healing.repairs >= MAX_REPAIR_ATTEMPTS {
            activate_queue(
                healing,
                rollback_changes(healing.config, healing.report, healing.process_id),
                AfterView::GiveUp { parsed: error, stderr: self.stderr },
            )
        } else {
            ActivateState::Repair(
                RepairWait {
                    healing: HealingView { repairs: healing.repairs + 1, ..healing },
                    stderr: self.stderr,
                    error,
                },
            )
        }
    }
}

impl RepairWait {
    /// The event that goes before the repair.
    pub open spec fn event(self) -> EventView {
        EventView::Attempt {
            attempt: self.healing.repairs,
            max: MAX_REPAIR_ATTEMPTS as int,
            error: self.error,
        }
    }

    /// The state after the repair: a valid module is installed and built; one
    /// that is not accepted counts as a failed build of the module before.
    pub open spec fn on_repaired(self, outcome: Result<Seq<char>, Seq<char>>) -> ActivateState {
        let healing = self.healing;
        match outcome {
            Err(message) => ActivateState::Finished(Err(ErrorView::Repair(message))),
            Ok(raw) => match accepted(raw) {
                Ok(module) => activate_queue(
                    HealingView { module, ..healing },
                    atomic_changes(
                        healing.report.module_file,
                        healing.content(module),
                        healing.process_id,
                    ),
                    AfterView::Rebuild,
                ),
                Err(reason) => ActivateState::Diagnose(
                    DiagnosisWait { healing, stderr: gate_message(reason) },
                ),
            },
        }
    }
}

impl WriteWait {
    /// The change that is to be made.
    pub open spec fn change(self) -> ChangeView {
        self.queue.first()
    }

    /// The state after the change was tried; `failure` says why it failed.
    pub open spec fn on_change(self, failure: Option<Seq<char>>) -> ActivateState {
        match failure {
            Some(message) => ActivateState::Finished(
                Err(ErrorView::Io { path: self.change().subject(), source: message }),
            ),
            None => activate_queue(self.healing, self.queue.drop_first(), self.next),
        }
    }
}

// ── Driving it ──────────────────────────────────────────────────────────────

/// What an activation carries along.
#[derive(Debug)]
struct Healing {
    config: NixosApplyConfig,
    report: RegisterReport,
    process_id: u32,
    module: String,
    repairs: usize,
}

impl Healing {
    spec fn view(&self) -> HealingView {
        HealingView {
            config: self.config@,
            report: self.report@,
            process_id: self.process_id,
            module: self.module@,
            repairs: self.repairs as int,
        }
    }
}

/// What follows a list of changes.
#[derive(Debug)]
enum After {
    Rebuild,
    GiveUp { parsed: Option<Box<NixBuildError>>, stderr: String },
}

impl After {
    spec fn view(&self) -> AfterView {
        match self {
            After::Rebuild => AfterView::Rebuild,
            After::GiveUp { parsed, stderr } => AfterView::GiveUp {
                parsed: boxed_view(*parsed),
                stderr: stderr@,
            },
        }
    }
}

/// The next step of an activation.
#[derive(Debug)]
pub enum ActivateStep {
    /// Show [`PendingBuild::event`], rebuild the system, and say how that went.
    Build(PendingBuild),
    /// Read the diagnostic out of [`PendingDiagnosis::stderr`].
    Diagnose(PendingDiagnosis),
    /// Show [`PendingRepair::event`], and have the module repaired.
    Repair(PendingRepair),
    /// Make the change [`PendingWrite::change`], and say whether that worked.
    Change(PendingWrite),
    /// The activation is over.
    Finished(Result<ActivateReport, InstallError>),
}

/// An activation that waits for a rebuild.
#[derive(Debug)]
pub struct PendingBuild {
    healing: Healing,
}

/// An activation that waits for a diagnostic.
#[derive(Debug)]
pub struct PendingDiagnosis {
    healing: Healing,
    stderr: String,
}

/// An activation that waits for a repaired module.
#[derive(Debug)]
pub struct PendingRepair {
    healing: Healing,
    stderr: String,
    error: Option<Box<NixBuildError>>,
}

/// An activation that waits for a change to be made.
#[derive(Debug)]
pub struct PendingWrite {
    healing: Healing,
    change: FileChange,
    rest: Vec<FileChange>,
    next: After,
}

impl View for PendingBuild {
    type V = HealingView;

    closed spec fn view(&self) -> HealingView {
        self.healing.view()
    }
}

impl View for PendingDiagnosis {
    type V = DiagnosisWait;

    closed spec fn view(&self) -> DiagnosisWait {
        DiagnosisWait { healing: self.healing.view(), stderr: self.stderr@ }
    }
}

impl View for PendingRepair {
    type V = RepairWait;

    closed spec fn view(&self) -> RepairWait {
        RepairWait {
            healing: self.healing.view(),
            stderr: self.stderr@,
            error: boxed_view(self.error),
        }
    }
}

impl View for PendingWrite {
    type V = WriteWait;

    closed spec fn view(&self) -> WriteWait {
        WriteWait {
            healing: self.healing.view(),
            queue: seq![self.change@] + changes(self.rest@),
            next: self.next.view(),
        }
    }
}

impl View for ActivateStep {
    type V = ActivateState;

    open spec fn view(&self) -> ActivateState {
        match self {
            ActivateStep::Build(pending) => ActivateState::Build(pending@),
            ActivateStep::Diagnose(pending) => ActivateState::Diagnose(pending@),
            ActivateStep::Repair(pending) => ActivateState::Repair(pending@),
            ActivateStep::Change(pending) => ActivateState::Change(pending@),
            ActivateStep::Finished(outcome) => ActivateState::Finished(
                match outcome {
                    Ok(report) => Ok(report.healing_attempts as int),
                    Err(e) => Err(e@),
                },
            ),
        }
    }
}

/// The step in which `queue` is to be made.
fn queue_step(healing: Healing, queue: Vec<FileChange>, next: After) -> (step: ActivateStep)
    ensures
        step@ == activate_queue(healing.view(), changes(queue@), next.view()),
{
    let mut queue = queue;
    if queue.len() == 0 {
        match next {
            After::Rebuild => ActivateStep::Build(PendingBuild { healing }),
            After::GiveUp { parsed, stderr } => ActivateStep::Finished(
                Err(InstallError::Rebuild { parsed, stderr }),
            ),
        }
    } else {
        let ghost all = changes(queue@);
        let change = queue.remove(0);
        assert(seq![change@] + changes(queue@) =~= all);
        ActivateStep::Change(PendingWrite { healing, change, rest: queue, next })
    }
}

/// Begins to activate an installed module.
pub fn activate(config: &NixosApplyConfig, report: &RegisterReport, process_id: u32) -> (step:
    ActivateStep)
    ensures
        step@ == activate_start(config@, report@, process_id),
{
    let healing = Healing {
        config: config.clone(),
        report: report.clone(),
        process_id,
        module: report.normalized_source.clone(),
        repairs: 0,
    };
    ActivateStep::Build(PendingBuild { healing })
}

impl PendingBuild {
    /// The module file that is built.
    pub fn path(&self) -> (path: String)
        ensures
            path@ == self@.report.module_file,
    {
        self.healing.report.module_file.clone()
    }

    /// What to show before the rebuild.
    pub fn event(&self) -> (event: Option<RepairEvent>)
        ensures
            match event {
                Some(e) => self@.event() == Some(e@),
                None => self@.event() is None,
            },
    {
        if self.healing.repairs > 0 {
            Some(RepairEvent::Rebuilding { attempt: self.healing.repairs })
        } else {
            None
        }
    }

    /// Goes on with the output of the rebuild, or with the message of why it
    /// could not be run.
    pub fn built(self, outcome: Result<BuildOutput, String>) -> (step: ActivateStep)
        ensures
            step@ == self@.on_built(build_view(outcome)),
    {
        match outcome {
            Ok(output) => {
                if output.success {
                    ActivateStep::Finished(
                        Ok(ActivateReport { healing_attempts: self.healing.repairs }),
                    )
                } else {
                    ActivateStep::Diagnose(
                        PendingDiagnosis { healing: self.healing, stderr: output.stderr },
                    )
                }
            },
            Err(message) => ActivateStep::Finished(Err(InstallError::Engine(message))),
        }
    }
}

impl PendingDiagnosis {
    /// What the failed build printed.
    pub fn stderr(&self) -> (stderr: &str)
        ensures
            stderr@ == self@.stderr,
    {
        self.stderr.as_str()
    }

    /// Goes on with the diagnostic, if there was one to read.
    pub fn diagnosed(self, error: Option<NixBuildError>) -> (step: ActivateStep)
        ensures
            step@ == self@.on_diagnosed(diagnosis_view(error)),
    {
        let boxed: Option<Box<NixBuildError>> = match error {
            Some(e) => Some(Box::new(e)),
            None => None,
        };
        let mut healing = self.healing;
        if healing.repairs >= MAX_REPAIR_ATTEMPTS {
            let queue = rollback(&healing.config, &healing.report, healing.process_id);
            queue_step(healing, queue, After::GiveUp { parsed: boxed, stderr: self.stderr })
        } else {
            healing.repairs = healing.repairs + 1;
            ActivateStep::Repair(PendingRepair { healing, stderr: self.stderr, error: boxed })
        }
    }
}

impl PendingRepair {
    /// What to show before the repair.
    pub fn event(&self) -> (event: RepairEvent)
        ensures
            event@ == self@.event(),
    {
        let error: Option<Box<NixBuildError>> = match &self.error {
            Some(e) => Some(Box::new((**e).clone())),
            None => None,
        };
        RepairEvent::Attempt { attempt: self.healing.repairs, max: MAX_REPAIR_ATTEMPTS, error }
    }

    /// The module that failed.
    pub fn module(&self) -> (module: &str)
        ensures
            module@ == self@.healing.module,
    {
        self.healing.module.as_str()
    }

    /// What its build printed.
    pub fn stderr(&self) -> (stderr: &str)
        ensures
            stderr@ == self@.stderr,
    {
        self.stderr.as_str()
    }

    /// Goes on with the text of the repaired module, or with the message of why
    /// there is none.
    pub fn repaired(self, outcome: Result<String, String>) -> (step: ActivateStep)
        ensures
            step@ == self@.on_repaired(repair_view(outcome)),
    {
        let raw = match outcome {
            Ok(raw) => raw,
            Err(message) => return ActivateStep::Finished(Err(InstallError::Repair(message))),
        };
        let mut healing = self.healing;
        match accept_module(raw.as_str()) {
            Ok(module) => {
                let text = render_module(
                    healing.report.plan_id.as_str(),
                    healing.report.prompt.as_str(),
                    module.as_str(),
                );
                let mut queue: Vec<FileChange> = Vec::new();
                assert(changes(queue@) =~= Seq::<ChangeView>::empty());
                atomic_write(
                    &mut queue,
                    healing.report.module_file.as_str(),
                    text.as_str(),
                    healing.process_id,
                );
                assert(changes(queue@) =~= atomic_changes(
                    healing.report.module_file@,
                    text@,
                    healing.process_id,
                ));
                healing.module = module;
                queue_step(healing, queue, After::Rebuild)
            },
            Err(e) => match e {
                InstallError::Normalize(reason) => {
                    let stderr = "error: regenerated module did not pass the AST gate: ".to_owned().concat(
                        reason.as_str(),
                    );
                    ActivateStep::Diagnose(PendingDiagnosis { healing, stderr })
                },
                other => ActivateStep::Finished(Err(other)),
            },
        }
    }
}

impl PendingWrite {
    /// The change to make.
    pub fn change(&self) -> (change: &FileChange)
        ensures
            change@ == self@.change(),
    {
        &self.change
    }

    /// Goes on after the change was made, or could not be made.
    pub fn changed(self, outcome: Result<(), String>) -> (step: ActivateStep)
        ensures
            step@ == self@.on_change(failure_in(outcome)),
    {
        match outcome {
            Err(source) => ActivateStep::Finished(
                Err(InstallError::Io { path: self.change.subject(), source }),
            ),
            Ok(_) => {
                proof {
                    let queue = seq![self.change@] + changes(self.rest@);
                    assert(queue.drop_first() =~= changes(self.rest@));
                }
                queue_step(self.healing, self.rest, self.next)
            },
        }
    }
}

} // verus!
