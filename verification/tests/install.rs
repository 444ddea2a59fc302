//! Installing and activating modules on a system that is kept in memory.

use std::collections::{BTreeMap, VecDeque};

use nix_agent::execution::{BuildOutput, NixBuildError, SourceLocation};
use nix_agent::install::activate::rollback;
use nix_agent::install::{
    activate, build_repair_prompt, normalize_module, package_to_binary, parse_system_packages,
    references_pkgs, register_in_aggregator, register_module, restore_aggregator,
    root_imports_aggregator, try_normalize_module, verify_binaries, ActivateReport, ActivateStep,
    AggregatorChange, BinaryProbe, FileChange, FsBinaryProbe, InstallError, NixosApplyConfig,
    RegisterReport, RegisterStep, RepairEvent, MODULE_HEADER,
};
use nix_agent::plan::Plan;

// ── A system in memory ──────────────────────────────────────────────────────

struct System {
    files: BTreeMap<String, String>,
    dirs: Vec<String>,
    log: Vec<FileChange>,
    /// Paths that cannot be read.
    unreadable: Vec<String>,
    /// Paths that cannot be changed.
    locked: Vec<String>,
}

impl System {
    fn new() -> System {
        System {
            files: BTreeMap::new(),
            dirs: Vec::new(),
            log: Vec::new(),
            unreadable: Vec::new(),
            locked: Vec::new(),
        }
    }

    fn put(&mut self, path: &str, content: &str) {
        self.files.insert(path.to_owned(), content.to_owned());
    }

    fn get(&self, path: &str) -> &str {
        self.files.get(path).map(|s| s.as_str()).unwrap_or("<missing>")
    }

    fn has(&self, path: &str) -> bool {
        self.files.contains_key(path)
    }

    fn read(&self, path: &str) -> Result<Option<String>, String> {
        if self.unreadable.iter().any(|p| p == path) {
            return Err("permission denied".to_owned());
        }
        Ok(self.files.get(path).cloned())
    }

    fn make(&mut self, change: &FileChange) -> Result<(), String> {
        if self.locked.contains(&change.subject()) {
            return Err("read-only file system".to_owned());
        }
        self.log.push(change.clone());
        match change {
            FileChange::CreateDirAll { path } => self.dirs.push(path.clone()),
            FileChange::Write { path, content } => {
                self.files.insert(path.clone(), content.clone());
            }
            FileChange::Commit { temp, path } => {
                let content = self.files.remove(temp).ok_or("no such file")?;
                self.files.insert(path.clone(), content);
            }
            FileChange::SetAside { path, dest } => {
                let content = self.files.remove(path).ok_or("no such file")?;
                self.files.insert(dest.clone(), content);
            }
            FileChange::Remove { path } => {
                self.files.remove(path);
            }
        }
        Ok(())
    }

    fn make_all(&mut self, steps: &[FileChange]) {
        for step in steps {
            self.make(step).unwrap();
        }
    }

    /// Registers a plan in an aggregator, as an installation would.
    fn register(&mut self, aggregator: &str, plan_id: &str) -> AggregatorChange {
        let prior = self.read(aggregator).unwrap();
        let update = register_in_aggregator(aggregator, plan_id, prior, PID);
        self.make_all(&update.steps);
        update.change
    }

    fn restore(&mut self, aggregator: &str, change: &AggregatorChange) {
        let steps = restore_aggregator(aggregator, change, PID);
        self.make_all(&steps);
    }

    fn install(&mut self, cfg: &NixosApplyConfig, p: &Plan) -> Result<RegisterReport, InstallError> {
        let mut step = register_module(cfg, p, PID);
        loop {
            step = match step {
                RegisterStep::Read(pending) => {
                    let outcome = self.read(&pending.path());
                    pending.read(outcome)
                }
                RegisterStep::Change(pending) => {
                    let outcome = self.make(pending.change());
                    pending.changed(outcome)
                }
                RegisterStep::Finished(outcome) => return outcome,
            };
        }
    }

    fn run(
        &mut self,
        cfg: &NixosApplyConfig,
        builder: &mut Builder,
        repairer: &mut Repairer,
        reg: &RegisterReport,
        events: &mut Vec<RepairEvent>,
    ) -> Result<ActivateReport, InstallError> {
        let mut step = activate(cfg, reg, PID);
        loop {
            step = match step {
                ActivateStep::Build(pending) => {
                    events.extend(pending.event());
                    assert_eq!(pending.path(), reg.module_file);
                    pending.built(builder.build())
                }
                ActivateStep::Diagnose(pending) => {
                    let error = diagnose(pending.stderr());
                    pending.diagnosed(error)
                }
                ActivateStep::Repair(pending) => {
                    events.push(pending.event());
                    let outcome = repairer.repair(pending.module(), pending.stderr());
                    pending.repaired(outcome)
                }
                ActivateStep::Change(pending) => {
                    let outcome = self.make(pending.change());
                    pending.changed(outcome)
                }
                ActivateStep::Finished(outcome) => return outcome,
            };
        }
    }
}

const PID: u32 = 4711;

/// Replays a queue of outcomes; the last one is repeated.
struct Builder {
    outputs: VecDeque<Result<BuildOutput, String>>,
    calls: usize,
}

impl Builder {
    fn new(outputs: Vec<Result<BuildOutput, String>>) -> Builder {
        Builder { outputs: outputs.into(), calls: 0 }
    }

    fn build(&mut self) -> Result<BuildOutput, String> {
        self.calls += 1;
        if self.outputs.len() > 1 {
            self.outputs.pop_front().unwrap()
        } else {
            self.outputs[0].clone()
        }
    }
}

/// Replays a fixed reply, and remembers what it was asked.
struct Repairer {
    reply: Result<String, String>,
    asked: Vec<(String, String)>,
}

impl Repairer {
    fn new(reply: &str) -> Repairer {
        Repairer { reply: Ok(reply.to_owned()), asked: Vec::new() }
    }

    fn repair(&mut self, module: &str, stderr: &str) -> Result<String, String> {
        self.asked.push((module.to_owned(), stderr.to_owned()));
        self.reply.clone()
    }
}

fn diagnose(stderr: &str) -> Option<NixBuildError> {
    if stderr.starts_with("error: undefined variable") {
        Some(NixBuildError {
            kind: "UndefinedVariable".to_owned(),
            message: "undefined variable 'foo'".to_owned(),
            location: Some(SourceLocation {
                file: "/etc/nixos/x.nix".to_owned(),
                line: 3,
                column: 5,
            }),
        })
    } else {
        None
    }
}

const REPAIRED: &str =
    "{ config, pkgs, lib, ... }:\n{\n  programs.tmux.enable = true; # repaired-by-healer\n}\n";

fn ok_build() -> BuildOutput {
    BuildOutput {
        success: true,
        exit_code: Some(0),
        stdout: String::new(),
        stderr: String::new(),
    }
}

fn fail_build() -> BuildOutput {
    BuildOutput {
        success: false,
        exit_code: Some(1),
        stdout: String::new(),
        stderr: "error: undefined variable 'foo' at /etc/nixos/x.nix:3:5\n".to_owned(),
    }
}

fn plan(id: &str, module: &str) -> Plan {
    Plan {
        id: id.to_owned(),
        prompt: "add ripgrep and fd".to_owned(),
        module_source: module.to_owned(),
    }
}

const BARE_ATTRSET: &str =
    "{\n  environment.systemPackages = with pkgs; [\n    ripgrep\n    fd\n  ];\n}\n";
const FUNCTION_WITH_PKGS: &str =
    "{ config, pkgs, lib, ... }:\n{\n  environment.systemPackages = with pkgs; [ ripgrep fd ];\n}\n";
const FUNCTION_NO_PKGS: &str =
    "{ config, lib, ... }:\n{\n  environment.systemPackages = with pkgs; [ ripgrep ];\n}\n";
const EXISTING: &str = "{ ... }:\n{\n  imports = [\n    ./existing.nix\n  ];\n}\n";

/// A configuration whose root file imports the aggregator directory.
fn config_with_root_import(sys: &mut System) -> NixosApplyConfig {
    let cfg = NixosApplyConfig::for_config_dir("/nixos".to_owned(), None);
    sys.put(
        &cfg.root_config_path,
        "{ config, pkgs, ... }:\n{\n  imports = [\n    ./hardware-configuration.nix\n    ./modules/ai-generated\n  ];\n}\n",
    );
    cfg
}

fn is_valid_nix(source: &str) -> bool {
    rnix::Root::parse(source).errors().is_empty()
}

// ── Normalization ───────────────────────────────────────────────────────────

#[test]
fn normalizes_bare_attrset_into_function_module() {
    let out = normalize_module(BARE_ATTRSET).unwrap();
    assert!(out.starts_with(MODULE_HEADER), "got: {out}");
    assert!(out.contains("{ config, pkgs, lib, ... }:"));
    assert!(out.contains("environment.systemPackages"));
    // Must be valid Nix.
    assert!(is_valid_nix(&out));
}

#[test]
fn preserves_already_valid_function_module() {
    let out = normalize_module(FUNCTION_WITH_PKGS).unwrap();
    // Header preserved verbatim; not double-wrapped.
    assert!(out.trim_start().starts_with("{ config, pkgs, lib, ... }:"));
    assert_eq!(out.matches("config, pkgs, lib").count(), 1);
}

#[test]
fn injects_pkgs_when_module_uses_but_does_not_bind_it() {
    let out = normalize_module(FUNCTION_NO_PKGS).unwrap();
    // pkgs must now be in the argument pattern.
    let header = out.lines().next().unwrap();
    assert!(header.contains("pkgs"), "header missing pkgs: {header}");
    assert!(header.contains("config") && header.contains("lib"));
    assert!(is_valid_nix(&out));
}

#[test]
fn references_pkgs_excludes_nixpkgs() {
    assert!(references_pkgs("with pkgs; [ vim ]"));
    assert!(references_pkgs("[ pkgs.vim ]"));
    assert!(!references_pkgs("inputs.nixpkgs.legacyPackages"));
    assert!(!references_pkgs("services.foo.enable = true;"));
}

#[test]
fn normalize_rejects_garbage() {
    assert!(matches!(
        normalize_module("{ foo = ;"),
        Err(InstallError::Normalize(_))
    ));
}

// ── Aggregator ──────────────────────────────────────────────────────────────

#[test]
fn creates_aggregator_from_scratch() {
    let mut sys = System::new();
    let agg = "/agg-new/default.nix";
    let change = sys.register(agg, "2026-06-29-ripgrep-fd");
    assert!(change.changed);
    assert!(change.prior.is_none());
    let content = sys.get(agg).to_owned();
    assert!(content.contains("./2026-06-29-ripgrep-fd.nix"));
    assert!(content.contains("imports = ["));
    // Valid Nix.
    assert!(is_valid_nix(&content));
}

#[test]
fn avoids_duplicate_aggregator_imports() {
    let mut sys = System::new();
    let agg = "/agg-dup/default.nix";
    sys.register(agg, "plan-a");
    let second = sys.register(agg, "plan-a");
    assert!(!second.changed, "second registration must be a no-op");
    assert_eq!(sys.get(agg).matches("./plan-a.nix").count(), 1);
}

#[test]
fn preserves_existing_aggregator_imports_and_backs_up() {
    let mut sys = System::new();
    let agg = "/agg-preserve/default.nix";
    sys.put(agg, EXISTING);

    let change = sys.register(agg, "plan-b");
    assert!(change.changed);
    let content = sys.get(agg).to_owned();
    assert!(content.contains("./existing.nix"), "existing import dropped");
    assert!(content.contains("./plan-b.nix"));
    // A .bak of the prior content exists.
    let bak = change.backup.expect("backup written");
    assert!(sys.has(&bak));
    assert!(sys.get(&bak).contains("./existing.nix"));
}

#[test]
fn restore_aggregator_recovers_prior_content() {
    let mut sys = System::new();
    let agg = "/agg-restore/default.nix";
    sys.put(agg, EXISTING);

    let change = sys.register(agg, "plan-c");
    assert!(sys.get(agg).contains("./plan-c.nix"));

    sys.restore(agg, &change);
    let restored = sys.get(agg);
    assert!(!restored.contains("./plan-c.nix"));
    assert!(restored.contains("./existing.nix"));
}

// ── Root configuration ──────────────────────────────────────────────────────

#[test]
fn root_config_importing_passes() {
    assert!(root_imports_aggregator(
        "{\n  imports = [ ./hardware-configuration.nix ./modules/ai-generated ];\n}"
    ));
    // Commented-out import does not count.
    assert!(!root_imports_aggregator("{\n  # ./modules/ai-generated\n}"));
    assert!(!root_imports_aggregator("{ imports = [ ./other.nix ]; }"));
}

#[test]
fn register_fails_when_root_does_not_import_aggregator() {
    let mut sys = System::new();
    let cfg = NixosApplyConfig::for_config_dir("/root-missing-import".to_owned(), None);
    sys.put(
        &cfg.root_config_path,
        "{ ... }:\n{\n  imports = [ ./hardware-configuration.nix ];\n}\n",
    );

    let err = sys.install(&cfg, &plan("2026-06-29-ripgrep-fd", BARE_ATTRSET)).unwrap_err();
    assert!(matches!(err, InstallError::RootNotImporting { .. }));
    let msg = err.message();
    assert!(msg.contains("not imported"));
    assert!(msg.contains("./modules/ai-generated"));
    // Nothing was written.
    assert!(!sys.has(&cfg.module_path_for("2026-06-29-ripgrep-fd")));
    assert!(!sys.has(&cfg.aggregator_path));
    assert!(sys.log.is_empty());
}

// ── Packages and programs ───────────────────────────────────────────────────

#[test]
fn parses_system_packages_with_pkgs() {
    let pkgs = parse_system_packages("environment.systemPackages = with pkgs; [ ripgrep fd ];");
    assert_eq!(pkgs, vec!["ripgrep".to_owned(), "fd".to_owned()]);
}

#[test]
fn parses_system_packages_qualified() {
    let pkgs = parse_system_packages("environment.systemPackages = [ pkgs.ripgrep pkgs.fd ];");
    assert_eq!(pkgs, vec!["ripgrep".to_owned(), "fd".to_owned()]);
}

#[test]
fn maps_ripgrep_to_rg() {
    assert_eq!(package_to_binary("ripgrep"), "rg");
    assert_eq!(package_to_binary("fd"), "fd");
    assert_eq!(package_to_binary("htop"), "htop");
}

/// Looks for programs among the files of a system.
struct SystemProbe<'a> {
    sys: &'a System,
    probe: FsBinaryProbe,
}

impl BinaryProbe for SystemProbe<'_> {
    fn resolve(&self, binary: &str) -> Option<String> {
        let exists = self.sys.has(&self.probe.candidate(binary));
        self.probe.resolve(binary, exists)
    }
}

#[test]
fn verify_binaries_reports_found_and_missing() {
    let mut sys = System::new();
    sys.put("/bins/bin/rg", "");
    // `fd` deliberately absent.
    let probe = SystemProbe {
        sys: &sys,
        probe: FsBinaryProbe { bin_dir: "/bins/bin".to_owned() },
    };

    let report = verify_binaries(&probe, &["ripgrep".to_owned(), "fd".to_owned()]);
    assert_eq!(report.found.len(), 1);
    assert!(report.found[0].ends_with("rg"));
    // For the known ripgrep+fd case, a missing binary is a hard failure in tests.
    assert_eq!(report.missing.len(), 1);
    assert_eq!(report.missing[0].binary, "fd");
}

// ── From installation to activation ─────────────────────────────────────────

#[test]
fn register_then_activate_succeeds() {
    let mut sys = System::new();
    let cfg = config_with_root_import(&mut sys);

    let reg = sys.install(&cfg, &plan("2026-06-29-ripgrep-fd", BARE_ATTRSET)).unwrap();
    assert!(sys.has(&reg.module_file));
    let body = sys.get(&reg.module_file).to_owned();
    assert!(body.contains("# plan-id: 2026-06-29-ripgrep-fd"));
    assert!(body.contains("{ config, pkgs, lib, ... }:")); // normalized
    assert_eq!(reg.packages, vec!["ripgrep".to_owned(), "fd".to_owned()]);
    assert!(sys.get(&cfg.aggregator_path).contains("./2026-06-29-ripgrep-fd.nix"));

    let mut builder = Builder::new(vec![Ok(ok_build())]);
    let mut repairer = Repairer::new("");
    let mut events = Vec::new();
    let report = sys.run(&cfg, &mut builder, &mut repairer, &reg, &mut events).unwrap();
    // Built first try: no healing, repairer never consulted.
    assert_eq!(report.healing_attempts, 0);
    assert_eq!(repairer.asked.len(), 0);
    assert!(sys.has(&reg.module_file));
    assert!(events.is_empty());
    assert_eq!(builder.calls, 1);
}

#[test]
fn activate_self_heals_on_second_attempt() {
    let mut sys = System::new();
    let cfg = config_with_root_import(&mut sys);
    let reg = sys.install(&cfg, &plan("2026-06-29-heal", BARE_ATTRSET)).unwrap();

    // First rebuild fails, the regenerated module then builds clean.
    let mut builder = Builder::new(vec![Ok(fail_build()), Ok(ok_build())]);
    let mut repairer = Repairer::new(REPAIRED);
    let mut events = Vec::new();
    let report = sys.run(&cfg, &mut builder, &mut repairer, &reg, &mut events).unwrap();

    assert_eq!(report.healing_attempts, 1);
    assert_eq!(repairer.asked.len(), 1);
    // The module on disk is the healed version (and keeps its provenance header).
    let body = sys.get(&reg.module_file);
    assert!(body.contains("repaired-by-healer"));
    assert!(body.contains("# plan-id: 2026-06-29-heal"));

    // The repair is asked with the installed module and the output of the build.
    assert_eq!(repairer.asked[0].0, reg.normalized_source);
    assert_eq!(repairer.asked[0].1, fail_build().stderr);
    assert_eq!(events.len(), 2);
    match &events[0] {
        RepairEvent::Attempt { attempt, max, error } => {
            assert_eq!((*attempt, *max), (1, 3));
            assert_eq!(error.as_ref().unwrap().kind, "UndefinedVariable");
        }
        RepairEvent::Rebuilding { .. } => panic!("wrong event"),
    }
    assert!(matches!(events[1], RepairEvent::Rebuilding { attempt: 1 }));
}

#[test]
fn repair_prompt_carries_error_and_source() {
    let p = build_repair_prompt("MODULE_BODY", "STDERR_BLOB");
    assert!(p.contains("[ERROR] STDERR_BLOB"));
    assert!(p.contains("[SOURCE] MODULE_BODY"));
    assert!(p.contains("Do not include prose"));
    assert!(p.contains("expert NixOS fixer"));
}

#[test]
fn activate_failure_rolls_back_and_reports_no_success() {
    let mut sys = System::new();
    let cfg = config_with_root_import(&mut sys);
    // Pre-existing aggregator with an unrelated import to verify restoration.
    sys.put(&cfg.aggregator_path, EXISTING);
    let before = sys.files.clone();

    let reg = sys.install(&cfg, &plan("2026-06-29-broken", BARE_ATTRSET)).unwrap();
    assert!(sys.has(&reg.module_file));

    // Every rebuild fails; the healer keeps producing parseable-but-still-broken
    // modules, so all 3 repair cycles are spent before the terminal rollback.
    let mut builder = Builder::new(vec![Ok(fail_build())]);
    let mut repairer = Repairer::new(REPAIRED);
    let mut events = Vec::new();
    let result = sys.run(&cfg, &mut builder, &mut repairer, &reg, &mut events);

    // No success: a terminal error is returned only after exhausting repairs.
    let err = result.unwrap_err();
    assert!(matches!(err, InstallError::Rebuild { .. }));
    assert_eq!(repairer.asked.len(), 3);
    assert_eq!(builder.calls, 4);

    // Aggregator restored to its prior state (no broken import).
    let agg = sys.get(&cfg.aggregator_path);
    assert!(agg.contains("./existing.nix"));
    assert!(!agg.contains("./2026-06-29-broken.nix"));

    // The freshly written module was quarantined, not left active.
    assert!(!sys.has(&reg.module_file));
    let failed = format!("{}/failed/2026-06-29-broken.nix", cfg.generated_modules_dir);
    assert!(sys.has(&failed));
    assert!(sys.dirs.contains(&format!("{}/failed", cfg.generated_modules_dir)));

    // Nothing else is left but the backup and the quarantined module.
    let mut after = sys.files.clone();
    assert_eq!(after.remove(&format!("{}.bak", cfg.aggregator_path)).as_deref(), Some(EXISTING));
    assert!(after.remove(&failed).unwrap().contains("repaired-by-healer"));
    assert_eq!(after, before);
}

// ── More of the same ────────────────────────────────────────────────────────

const TOO_DEEP: &str = "module is larger or nested deeper than the Nix parser can take";

#[test]
fn a_module_beyond_the_parser_is_refused() {
    let mut sys = System::new();
    let cfg = config_with_root_import(&mut sys);
    let before = sys.files.clone();
    for part in ["[", "++ ", "( ? "] {
        let module = part.repeat(5000);
        assert!(try_normalize_module(&module).is_none());
        match sys.install(&cfg, &plan("deep", &module)) {
            Err(InstallError::Normalize(message)) => assert_eq!(message, TOO_DEEP),
            other => panic!("{:?}", other),
        }
    }
    assert_eq!(sys.files, before);
}

#[test]
fn a_repair_beyond_the_parser_counts_as_failed() {
    let mut sys = System::new();
    let cfg = config_with_root_import(&mut sys);
    let before = sys.files.clone();
    let reg = sys.install(&cfg, &plan("deep", BARE_ATTRSET)).unwrap();
    let mut builder = Builder::new(vec![Ok(fail_build())]);
    let mut repairer = Repairer::new(&"[".repeat(5000));
    let mut events = Vec::new();
    let result = sys.run(&cfg, &mut builder, &mut repairer, &reg, &mut events);
    assert!(matches!(result, Err(InstallError::Rebuild { .. })));
    assert_eq!(builder.calls, 1);
    assert_eq!(repairer.asked.len(), 3);
    assert_eq!(
        repairer.asked[1].1,
        format!("error: regenerated module did not pass the AST gate: {}", TOO_DEEP)
    );
    let failed = format!("{}/failed/deep.nix", cfg.generated_modules_dir);
    let mut after = sys.files.clone();
    assert!(after.remove(&failed).is_some());
    assert_eq!(after, before);
}

#[test]
fn a_rollback_undoes_an_installation_wherever_the_files_lie() {
    for prior in [None, Some("{ old = true; }")] {
        for aggregator in [None, Some(EXISTING)] {
            let mut sys = System::new();
            let mut cfg = config_with_root_import(&mut sys);
            cfg.generated_modules_dir = "gen/".to_owned();
            cfg.aggregator_path = "/elsewhere/all.nix".to_owned();
            if let Some(content) = prior {
                sys.put("gen/p.nix", content);
            }
            if let Some(content) = aggregator {
                sys.put(&cfg.aggregator_path, content);
            }
            let before = sys.files.clone();
            let reg = sys.install(&cfg, &plan("p", BARE_ATTRSET)).unwrap();
            assert_eq!(reg.module_file, "gen/p.nix");
            sys.put("gen/p.nix", "rewritten");
            sys.make_all(&rollback(&cfg, &reg, PID));
            let mut after = sys.files.clone();
            assert_eq!(after.remove("/elsewhere/all.nix.bak").as_deref(), aggregator);
            assert_eq!(
                after.remove("gen/failed/p.nix").as_deref(),
                if prior.is_none() { Some("rewritten") } else { None }
            );
            assert_eq!(after, before);
        }
    }
}

#[test]
fn normalized_texts_are_exact() {
    assert_eq!(
        normalize_module("  { a = 1; }\n\n").unwrap(),
        "{ config, pkgs, lib, ... }:\n\n{ a = 1; }\n"
    );
    assert_eq!(normalize_module(FUNCTION_WITH_PKGS).unwrap(), FUNCTION_WITH_PKGS);
    assert_eq!(
        normalize_module(FUNCTION_NO_PKGS).unwrap(),
        "{ config, lib, pkgs, ... }:\n{\n  environment.systemPackages = with pkgs; [ ripgrep ];\n}\n"
    );
    // Defaults are kept as they are written; text around the pattern stays.
    assert_eq!(
        normalize_module("# wörld\n{ lib ? null }: pkgs.hello").unwrap(),
        "# wörld\n{ lib ? null, pkgs, ... }: pkgs.hello\n"
    );
    assert_eq!(normalize_module("{ }: pkgs.hello").unwrap(), "{ pkgs, ... }: pkgs.hello\n");
    // The name of the whole argument is kept; one called `pkgs` is enough.
    assert_eq!(
        normalize_module("{ lib, ... }@args: pkgs.hello args").unwrap(),
        "{ lib, pkgs, ... }@args: pkgs.hello args\n"
    );
    assert_eq!(
        normalize_module("args@{ lib }: pkgs.hello args").unwrap(),
        "{ lib, pkgs, ... }@args: pkgs.hello args\n"
    );
    assert_eq!(normalize_module("{ lib, ... }@pkgs: pkgs.a").unwrap(), "{ lib, ... }@pkgs: pkgs.a\n");
    // A function that needs nothing is only trimmed.
    assert_eq!(normalize_module(" x: x ").unwrap(), "x: x\n");
    assert_eq!(normalize_module("{ ... }: { }").unwrap(), "{ ... }: { }\n");
}

#[test]
fn normalizing_twice_changes_nothing_more() {
    for raw in [BARE_ATTRSET, FUNCTION_WITH_PKGS, FUNCTION_NO_PKGS, "x: x", "let a = 1; in { b = a; }"] {
        let once = normalize_module(raw).unwrap();
        assert_eq!(normalize_module(&once).unwrap(), once);
        assert_eq!(normalize_module(&format!("\n\t{}  \n", raw)).unwrap(), once);
        assert!(is_valid_nix(&once));
    }
}

#[test]
fn a_result_that_is_no_function_is_wrapped_again() {
    let once = normalize_module("let { body = 1; }.foo").unwrap();
    assert_eq!(once, format!("{}\n\nlet {{ body = 1; }}.foo\n", MODULE_HEADER));
    assert_ne!(normalize_module(&once).unwrap(), once);
}

fn refusal(raw: &str) -> String {
    match normalize_module(raw) {
        Err(InstallError::Normalize(m)) => m,
        other => panic!("{:?}", other),
    }
}

#[test]
fn each_refusal_says_why() {
    assert_eq!(refusal(""), "module is empty");
    assert_eq!(refusal(" \n\t\u{a0}"), "module is empty");
    assert_eq!(
        refusal("x: pkgs.hello"),
        "module references `pkgs` but its argument is not an attrset pattern that can receive it"
    );
    let garbage = refusal("{ foo = ;");
    assert!(garbage.starts_with("result is not valid Nix: "));
    assert!(garbage.len() > "result is not valid Nix: ".len());
    // The reason is that of the parser on the wrapped text.
    let wrapped = format!("{}\n\n{}\n", MODULE_HEADER, "{ foo = ;");
    let reason = rnix::Root::parse(&wrapped).ok().unwrap_err().to_string();
    assert_eq!(garbage, format!("result is not valid Nix: {}", reason));
}

#[test]
fn pkgs_is_found_as_a_whole_identifier_only() {
    for used in ["pkgs", "(pkgs)", "x pkgs", "pkgs;", "pkgs.a", "é pkgs é", "nixpkgs pkgs"] {
        assert!(references_pkgs(used), "{}", used);
    }
    for unused in ["", "pkg", "pkgsCross", "nixpkgs", "my-pkgs", "_pkgs", "pkgs'", "pkgs-x", "1pkgs"] {
        assert!(!references_pkgs(unused), "{}", unused);
    }
}

#[test]
fn reinstalling_keeps_the_prior_module_for_rollback() {
    let mut sys = System::new();
    let cfg = config_with_root_import(&mut sys);
    let p = plan("again", BARE_ATTRSET);
    let first = sys.install(&cfg, &p).unwrap();
    assert!(first.module_prior.is_none());
    assert!(first.aggregator_change.changed);
    let before = sys.files.clone();

    let second = sys.install(&cfg, &plan("again", "{ services.x.enable = true; }")).unwrap();
    assert_eq!(second.module_prior.as_deref(), Some(before[&second.module_file].as_str()));
    assert!(!second.aggregator_change.changed);
    assert!(second.packages.is_empty());

    // A repair that is no valid Nix is not installed, but counts.
    let mut builder = Builder::new(vec![Ok(fail_build())]);
    let mut repairer = Repairer::new("{ foo = ;");
    let mut events = Vec::new();
    let err = sys.run(&cfg, &mut builder, &mut repairer, &second, &mut events).unwrap_err();
    assert_eq!(builder.calls, 1);
    assert_eq!(repairer.asked.len(), 3);
    assert_eq!(repairer.asked[2].0, second.normalized_source);
    assert!(repairer.asked[1].1.starts_with("error: regenerated module did not pass the AST gate: result is not valid Nix: "));
    match err {
        InstallError::Rebuild { parsed, stderr } => {
            assert!(parsed.is_none());
            assert_eq!(stderr, repairer.asked[2].1);
        }
        other => panic!("{:?}", other),
    }
    assert_eq!(sys.files, before);
}

#[test]
fn failures_outside_end_an_activation_without_rollback() {
    let mut sys = System::new();
    let cfg = config_with_root_import(&mut sys);
    let reg = sys.install(&cfg, &plan("p", BARE_ATTRSET)).unwrap();
    let installed = sys.files.clone();
    let mut events = Vec::new();

    let mut broken = Builder::new(vec![Err("nixos-rebuild: not found".to_owned())]);
    let err = sys.run(&cfg, &mut broken, &mut Repairer::new(""), &reg, &mut events).unwrap_err();
    assert!(matches!(&err, InstallError::Engine(m) if m == "nixos-rebuild: not found"));
    assert_eq!(err.message(), "nixos-rebuild: not found");

    let mut failing = Builder::new(vec![Ok(fail_build())]);
    let mut silent = Repairer { reply: Err("no model".to_owned()), asked: Vec::new() };
    let err = sys.run(&cfg, &mut failing, &mut silent, &reg, &mut events).unwrap_err();
    assert!(matches!(&err, InstallError::Repair(m) if m == "no model"));
    assert_eq!(err.message(), "self-healing regeneration failed: no model");

    sys.locked.push(reg.module_file.clone());
    let err = sys
        .run(&cfg, &mut failing, &mut Repairer::new(REPAIRED), &reg, &mut events)
        .unwrap_err();
    assert!(matches!(&err, InstallError::Io { path, .. } if *path == reg.module_file));
    sys.files.remove(&format!("{}.tmp.{}", reg.module_file, PID));
    assert_eq!(sys.files, installed);
}

#[test]
fn an_unwired_system_is_left_alone() {
    let p = plan("p", BARE_ATTRSET);
    let cfg = NixosApplyConfig::for_config_dir("/nixos".to_owned(), None);

    let mut sys = System::new();
    let err = sys.install(&cfg, &p).unwrap_err();
    assert!(matches!(&err, InstallError::RootConfigMissing(path) if path == "/nixos/configuration.nix"));
    assert!(sys.log.is_empty() && sys.files.is_empty());

    sys.unreadable.push("/nixos/configuration.nix".to_owned());
    let err = sys.install(&cfg, &p).unwrap_err();
    assert_eq!(err.message(), "I/O error on /nixos/configuration.nix: permission denied");
    assert!(sys.log.is_empty());

    let mut sys = System::new();
    let cfg = config_with_root_import(&mut sys);
    let err = sys.install(&cfg, &plan("p", "{ foo = ;")).unwrap_err();
    assert!(matches!(err, InstallError::Normalize(_)));
    assert!(sys.log.is_empty());
}

#[test]
fn an_installation_goes_step_by_step() {
    let mut sys = System::new();
    let cfg = config_with_root_import(&mut sys);
    sys.put(&cfg.aggregator_path, EXISTING);
    let reg = sys.install(&cfg, &plan("p", "{ }")).unwrap();
    let dir = "/nixos/modules/ai-generated";
    assert_eq!(reg.module_file, format!("{}/p.nix", dir));
    assert_eq!(reg.aggregator_path, format!("{}/default.nix", dir));
    assert_eq!(reg.root_config_path, "/nixos/configuration.nix");
    assert_eq!(reg.plan_id, "p");
    assert_eq!(reg.prompt, "add ripgrep and fd");
    assert_eq!(reg.normalized_source, "{ config, pkgs, lib, ... }:\n\n{ }\n");
    assert_eq!(reg.aggregator_change.prior.as_deref(), Some(EXISTING));
    assert_eq!(
        sys.get(&reg.module_file),
        "# Generated by nix-agent — do not edit by hand.\n# plan-id: p\n# prompt: add ripgrep and fd\n\n{ config, pkgs, lib, ... }:\n\n{ }\n"
    );
    assert_eq!(
        sys.get(&reg.aggregator_path),
        "{ ... }:\n\n{\n  imports = [\n    ./existing.nix\n    ./p.nix\n  ];\n}\n"
    );
    let log: Vec<String> = sys
        .log
        .iter()
        .map(|c| match c {
            FileChange::CreateDirAll { path } => format!("mkdir {}", path),
            FileChange::Write { path, .. } => format!("write {}", path),
            FileChange::Commit { temp, path } => format!("commit {} {}", temp, path),
            FileChange::SetAside { path, dest } => format!("aside {} {}", path, dest),
            FileChange::Remove { path } => format!("remove {}", path),
        })
        .collect();
    assert_eq!(
        log,
        vec![
            format!("mkdir {}", dir),
            format!("write {}/p.nix.tmp.4711", dir),
            format!("commit {}/p.nix.tmp.4711 {}/p.nix", dir, dir),
            format!("mkdir {}", dir),
            format!("write {}/default.nix.bak", dir),
            format!("write {}/default.nix.tmp.4711", dir),
            format!("commit {}/default.nix.tmp.4711 {}/default.nix", dir, dir),
        ]
    );
}

#[test]
fn io_failures_name_the_file() {
    let p = plan("p", "{ }");
    let dir = "/nixos/modules/ai-generated";
    let cases: Vec<(String, bool)> = vec![
        (dir.to_owned(), true),
        (format!("{}/p.nix", dir), false),
        (format!("{}/p.nix.tmp.4711", dir), true),
        (format!("{}/p.nix", dir), true),
        (format!("{}/default.nix", dir), false),
        (format!("{}/default.nix.bak", dir), true),
        (format!("{}/default.nix", dir), true),
    ];
    for (bad, writing) in cases {
        let mut sys = System::new();
        let cfg = config_with_root_import(&mut sys);
        sys.put(&cfg.aggregator_path, EXISTING);
        if writing {
            sys.locked.push(bad.clone());
        } else {
            sys.unreadable.push(bad.clone());
        }
        match sys.install(&cfg, &p) {
            Err(InstallError::Io { path, source }) => {
                assert_eq!(path, bad);
                assert_eq!(source == "permission denied", !writing);
            }
            other => panic!("{:?}", other),
        }
        assert_eq!(sys.get(&cfg.aggregator_path), EXISTING);
    }
}
