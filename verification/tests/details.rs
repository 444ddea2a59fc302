//! Single functions on chosen values.

use nix_agent::execution::{BuildMode, NixBuildError, SourceLocation};
use nix_agent::install::activate::{quarantine_module, rollback};
use nix_agent::install::aggregator::{
    dedupe_imports, extract_imports, import_eq, render_aggregator,
};
use nix_agent::install::config::env_path;
use nix_agent::install::files::atomic_write;
use nix_agent::install::normalize::{
    ensure_parses, ensure_trailing_nl, inject_pkgs, is_ident_char, module_candidate, parse_verdict,
    pattern_binds,
};
use nix_agent::install::nix::{ArgPattern, ExprShape, PatternEntry};
use nix_agent::install::packages::is_package_ident;
use nix_agent::install::provenance::render_module;
use nix_agent::install::{
    parse_system_packages, register_in_aggregator, restore_aggregator, root_imports_aggregator,
    try_normalize_module, verify_binaries, verify_root_config, ActivateReport, AggregatorChange,
    BinaryProbe, BinaryReport, FileChange, FsBinaryProbe, InstallError, MissingBinary,
    NixosApplyConfig, RegisterReport, AGGREGATOR_IMPORT, DEFAULT_CONFIG_DIR, MAX_REPAIR_ATTEMPTS,
    MODULE_HEADER,
};

fn strings(list: &[&str]) -> Vec<String> {
    list.iter().map(|s| (*s).to_owned()).collect()
}

// ── Configuration ───────────────────────────────────────────────────────────

#[test]
fn constants_are_those_of_a_plain_nixos() {
    assert_eq!(DEFAULT_CONFIG_DIR, "/etc/nixos");
    assert_eq!(AGGREGATOR_IMPORT, "./modules/ai-generated");
    assert_eq!(MODULE_HEADER, "{ config, pkgs, lib, ... }:");
    assert_eq!(MAX_REPAIR_ATTEMPTS, 3);
    assert_eq!(BuildMode::Test.subcommand(), "test");
    assert_eq!(ActivateReport::default().healing_attempts, 0);
}

#[test]
fn paths_are_derived_from_the_directory() {
    let c = NixosApplyConfig::default();
    assert_eq!(c.config_dir, "/etc/nixos");
    assert_eq!(c.generated_modules_dir, "/etc/nixos/modules/ai-generated");
    assert_eq!(c.aggregator_path, "/etc/nixos/modules/ai-generated/default.nix");
    assert_eq!(c.root_config_path, "/etc/nixos/configuration.nix");
    assert_eq!(c.rebuild_mode, BuildMode::Test);
    assert_eq!(c.module_path_for("x"), "/etc/nixos/modules/ai-generated/x.nix");
    assert_eq!(c.rebuild_command(true), "sudo nixos-rebuild test");
    assert_eq!(c.rebuild_command(false), "nixos-rebuild test");
    assert_eq!(c, c.clone());
    let d = NixosApplyConfig::for_config_dir("cfg/".to_owned(), Some("root.nix".to_owned()));
    assert_eq!(d.generated_modules_dir, "cfg/modules/ai-generated");
    assert_eq!(d.root_config_path, "root.nix");
}

#[test]
fn environment_values_may_be_unset_or_empty() {
    assert_eq!(env_path(None), None);
    assert_eq!(env_path(Some(String::new())), None);
    assert_eq!(env_path(Some("x".to_owned())), Some("x".to_owned()));
    assert_eq!(NixosApplyConfig::resolve(None, None), NixosApplyConfig::default());
    assert_eq!(
        NixosApplyConfig::resolve(Some(String::new()), Some(String::new())),
        NixosApplyConfig::default()
    );
    assert_eq!(
        NixosApplyConfig::resolve(Some("/d".to_owned()), Some("/r".to_owned())),
        NixosApplyConfig::for_config_dir("/d".to_owned(), Some("/r".to_owned()))
    );
}

// ── Errors ──────────────────────────────────────────────────────────────────

#[test]
fn messages_are_exact() {
    let io = InstallError::Io { path: "/a".to_owned(), source: "gone".to_owned() };
    assert_eq!(io.message(), "I/O error on /a: gone");
    assert_eq!(
        InstallError::Normalize("m".to_owned()).message(),
        "could not normalize generated module: m"
    );
    assert_eq!(
        InstallError::RootConfigMissing("/c".to_owned()).message(),
        "root NixOS config not found at /c — cannot verify it imports the generated modules"
    );
    let root = InstallError::RootNotImporting {
        root_config: "/c".to_owned(),
        import: "./m".to_owned(),
        rebuild: "sudo x".to_owned(),
    };
    assert_eq!(
        root.message(),
        "generated modules directory is not imported by /c\n\nAdd this once to your imports:\n\n  ./m\n\nThen rerun:\n\n  sudo x"
    );
    assert_eq!(InstallError::Engine("e".to_owned()).message(), "e");
    assert_eq!(
        InstallError::Repair("r".to_owned()).message(),
        "self-healing regeneration failed: r"
    );
}

#[test]
fn a_rejected_rebuild_shows_its_diagnostic_or_its_last_lines() {
    let mut e = NixBuildError {
        kind: "Syntax".to_owned(),
        message: "unexpected ;".to_owned(),
        location: None,
    };
    let bare = InstallError::Rebuild {
        parsed: Some(Box::new(e.clone())),
        stderr: "ignored".to_owned(),
    };
    assert_eq!(
        bare.message(),
        "nixos-rebuild rejected the configuration\n  Syntax: unexpected ;"
    );
    e.location = Some(SourceLocation { file: "/x.nix".to_owned(), line: 10, column: 207 });
    let placed = InstallError::Rebuild { parsed: Some(Box::new(e)), stderr: String::new() };
    assert_eq!(
        placed.message(),
        "nixos-rebuild rejected the configuration\n  Syntax: unexpected ; (/x.nix:10:207)"
    );
    let lines = |n: usize| -> String { (1..n + 1).map(|i| format!("l{}\r\n", i)).collect() };
    let short = InstallError::Rebuild { parsed: None, stderr: lines(2) };
    assert_eq!(short.message(), "nixos-rebuild rejected the configuration\nl1\nl2");
    let long = InstallError::Rebuild { parsed: None, stderr: lines(10) };
    assert_eq!(
        long.message(),
        "nixos-rebuild rejected the configuration\nl3\nl4\nl5\nl6\nl7\nl8\nl9\nl10"
    );
    let none = InstallError::Rebuild { parsed: None, stderr: String::new() };
    assert_eq!(none.message(), "nixos-rebuild rejected the configuration\n");
}

// ── Normalization ───────────────────────────────────────────────────────────

fn entry(text: &str, name: Option<&str>) -> PatternEntry {
    PatternEntry { text: text.to_owned(), name: name.map(|s| s.to_owned()) }
}

#[test]
fn a_pattern_binds_its_names() {
    let p = ArgPattern {
        start: 0,
        end: 0,
        entries: vec![entry("a ? pkgs", Some("a")), entry("", None)],
        bind: Some("args".to_owned()),
    };
    assert!(pattern_binds(&p, "args"));
    assert!(pattern_binds(&p, "a"));
    assert!(!pattern_binds(&p, "pkgs"));
    assert!(!pattern_binds(&p, ""));
}

#[test]
fn pkgs_is_spliced_in_by_byte_offsets() {
    let src = "ä{ a, b ? 1 }: ö";
    let p = ArgPattern {
        start: 2,
        end: 14,
        entries: vec![entry(" a ", Some("a")), entry(" ", None), entry("b ? 1", Some("b"))],
        bind: None,
    };
    assert_eq!(inject_pkgs(src, &p), "ä{ a, b ? 1, pkgs, ... }: ö");
    let mut none = ArgPattern { start: 2, end: 14, entries: Vec::new(), bind: None };
    assert_eq!(inject_pkgs(src, &none), "ä{ pkgs, ... }: ö");
    none.bind = Some("args".to_owned());
    assert_eq!(inject_pkgs(src, &none), "ä{ pkgs, ... }@args: ö");
}

#[test]
fn a_shape_decides_on_the_candidate() {
    let p = ArgPattern { start: 0, end: 5, entries: vec![entry("a", Some("a"))], bind: None };
    let shape = ExprShape::PatternFunction(p);
    assert_eq!(module_candidate("{ a }: a", &shape).unwrap(), "{ a }: a");
    assert_eq!(module_candidate("{ a }: pkgs", &shape).unwrap(), "{ a, pkgs, ... }: pkgs");
    assert_eq!(module_candidate("x: 1", &ExprShape::PlainFunction).unwrap(), "x: 1");
    assert!(module_candidate("x: pkgs", &ExprShape::PlainFunction).is_err());
    assert_eq!(
        module_candidate("{ }", &ExprShape::NotFunction).unwrap(),
        "{ config, pkgs, lib, ... }:\n\n{ }\n"
    );
}

#[test]
fn verdicts_follow_the_parser() {
    assert!(parse_verdict(None).is_ok());
    assert_eq!(
        parse_verdict(Some("oops".to_owned())).unwrap_err().message(),
        "could not normalize generated module: result is not valid Nix: oops"
    );
    assert!(ensure_parses("{ a = 1; }").is_ok());
    assert!(ensure_parses("{ a = ; }").is_err());
    assert!(ensure_parses("{ a = 1; } }").is_err());
    assert_eq!(ensure_trailing_nl("a".to_owned()), "a\n");
    assert_eq!(ensure_trailing_nl("a\n".to_owned()), "a\n");
    assert_eq!(ensure_trailing_nl(String::new()), "\n");
    for c in "azAZ09_-'".chars() {
        assert!(is_ident_char(c));
    }
    for c in " .;:/é\"".chars() {
        assert!(!is_ident_char(c));
    }
    assert_eq!(try_normalize_module("x: x").unwrap().unwrap(), "x: x\n");
    assert!(try_normalize_module("").unwrap().is_err());
    assert!(try_normalize_module("x: pkgs").unwrap().is_err());
}

// ── Aggregator ──────────────────────────────────────────────────────────────

#[test]
fn rendered_imports_are_read_back() {
    let imports = strings(&["./a.nix", "b.nix", "./dir"]);
    let text = render_aggregator(&imports);
    assert_eq!(text, "{ ... }:\n\n{\n  imports = [\n    ./a.nix\n    b.nix\n    ./dir\n  ];\n}\n");
    assert_eq!(extract_imports(&text), imports);
    assert_eq!(extract_imports(&render_aggregator(&[])), Vec::<String>::new());
}

#[test]
fn a_rendered_path_may_hold_anything_but_white_space_and_a_bracket() {
    for words in [
        vec!["a(.nix"],
        vec!["a#.nix"],
        vec!["a\".nix"],
        vec!["a(.nix", "b).nix"],
        vec!["./[", "./a", "./a", "x''.nix"],
        vec!["#.nix", "/*.nix", "./*/", "{.nix", "}.nix", "\\.nix", "$.nix"],
        vec!["imports.nix", ".nix", "./"],
    ] {
        let imports = strings(&words);
        assert_eq!(extract_imports(&render_aggregator(&imports)), imports);
        let first = register_in_aggregator("/a", "p", Some(render_aggregator(&imports)), 1);
        let mut extended = imports.clone();
        dedupe_imports(&mut extended);
        extended.push("./p.nix".to_owned());
        match &first.steps[1] {
            FileChange::Write { content, .. } => {
                assert_eq!(extract_imports(content), extended);
                assert!(!register_in_aggregator("/a", "p", Some(content.clone()), 1).change.changed);
            }
            other => panic!("{:?}", other),
        }
    }
}

#[test]
fn a_list_that_does_not_end_as_code_is_read_word_by_word() {
    let prior = "{ imports = [ ./x.nix (y ]; }";
    assert_eq!(extract_imports(prior), strings(&["./x.nix"]));
    let update = register_in_aggregator("/a", "a", Some(prior.to_owned()), 1);
    match &update.steps[1] {
        FileChange::Write { content, .. } => {
            assert_eq!(extract_imports(content), strings(&["./x.nix", "./a.nix"]));
        }
        other => panic!("{:?}", other),
    }
    assert_eq!(extract_imports("imports = [ \"./x ./y.nix z ]"), strings(&["./y.nix"]));
    assert_eq!(extract_imports("imports = [ ./x.nix /* ./y.nix ]"), strings(&["./x.nix", "./y.nix"]));
    assert_eq!(
        parse_system_packages("environment.systemPackages = [ vim (x ]; }"),
        strings(&["vim"])
    );
}

#[test]
fn an_entry_of_several_lines_stays_one_unless_it_looks_like_imports() {
    let one = "(import\n    ./x.nix)";
    assert_eq!(extract_imports(&format!("imports = [ {} ];", one)), strings(&[one]));
    assert_eq!(extract_imports(&render_aggregator(&strings(&[one, "./y.nix"]))), strings(&[one, "./y.nix"]));
    let two = strings(&["(./x.nix", "./y.nix)"]);
    assert_eq!(extract_imports("imports = [ (./x.nix\n    ./y.nix) <h> ];"), two);
    assert_eq!(extract_imports(&render_aggregator(&two)), two);
    let apart = "(./x.nix ./y.nix)";
    assert_eq!(extract_imports(&format!("imports = [ {} ];", apart)), strings(&[apart]));
}

#[test]
fn imports_are_read_out_of_the_first_list() {
    assert_eq!(
        extract_imports("imports = [ ./a <home-manager/nixos> ../b c.nix d ];"),
        strings(&["./a", "<home-manager/nixos>", "../b", "c.nix", "d"])
    );
    assert_eq!(extract_imports("imports = [ ./a ] [ ./b ]"), strings(&["./a"]));
    assert_eq!(extract_imports("x = [ ./z ]; imports = [ ./a ];"), strings(&["./a"]));
    for empty in ["", "imports", "imports = [ ./a", "[ ./a ] imports", "[ ./a ]", "imports = [ ( ]"] {
        assert!(extract_imports(empty).is_empty(), "{}", empty);
    }
}

#[test]
fn expressions_in_a_list_are_one_entry() {
    let text = "imports = [
      (import ./a.nix { x = [ 1 2 ]; })
      \"${inputs.a}/b c.nix\" inputs.\"my flake\".mod
      { services.x.text = ''a ] ''' b ''${ c }''; }
      foldl'(a b) /etc/x.nix ./a#b.nix
    ]; ]";
    let found = extract_imports(text);
    assert_eq!(
        found,
        strings(&[
            "(import ./a.nix { x = [ 1 2 ]; })",
            "\"${inputs.a}/b c.nix\"",
            "inputs.\"my flake\".mod",
            "{ services.x.text = ''a ] ''' b ''${ c }''; }",
            "foldl'(a b)",
            "/etc/x.nix",
            "./a#b.nix",
        ])
    );
    assert_eq!(extract_imports(&render_aggregator(&found)), found);
}

#[test]
fn comments_in_a_list_are_no_entries() {
    let text = "# imports = [ ./x.nix ]\n/* imports = [ ./y.nix ] */ s = \"imports = [ ./z.nix ]\";
    imports = [ # ./old.nix
      ./a.nix # ] the first
      /* ./older.nix ] */ b.nix/* c */
      (d # ) e
      )
    ];";
    assert_eq!(extract_imports(text), strings(&["./a.nix", "b.nix", "(d # ) e\n      )"]));
}

#[test]
fn a_leading_dot_slash_does_not_count() {
    assert!(import_eq("./a.nix", "a.nix"));
    assert!(import_eq("././a.nix", "./a.nix"));
    assert!(!import_eq("./a.nix", "./b.nix"));
    assert!(!import_eq("../a.nix", "a.nix"));
    let mut list = strings(&["./a", "b", "a", "./b", "./c", "././a"]);
    dedupe_imports(&mut list);
    assert_eq!(list, strings(&["./a", "b", "./c"]));
}

#[test]
fn a_registration_is_recorded() {
    let new = register_in_aggregator("/d/default.nix", "p", None, 7);
    assert!(new.change.changed && new.change.prior.is_none() && new.change.backup.is_none());
    assert_eq!(new.steps.len(), 2);
    let prior = "imports = [ p.nix x.nix ./x.nix <y> ]".to_owned();
    let same = register_in_aggregator("/d/default.nix", "p", Some(prior.clone()), 7);
    assert!(!same.change.changed && same.change.backup.is_none());
    assert_eq!(same.change.prior.as_deref(), Some(prior.as_str()));
    assert!(same.steps.is_empty());
    let more = register_in_aggregator("/d/default.nix", "q", Some(prior.clone()), 7);
    assert_eq!(more.change.backup.as_deref(), Some("/d/default.nix.bak"));
    match &more.steps[1] {
        FileChange::Write { path, content } => {
            assert_eq!(path, "/d/default.nix.tmp.7");
            assert_eq!(extract_imports(content), strings(&["p.nix", "x.nix", "<y>", "./q.nix"]));
            let again = register_in_aggregator("/d/default.nix", "q", Some(content.clone()), 7);
            assert!(!again.change.changed);
        }
        other => panic!("{:?}", other),
    }
}

#[test]
fn a_repeated_import_is_listed_once_afterwards() {
    let prior = "{ ... }: { imports = [ ./a.nix ./b.nix a.nix ]; }".to_owned();
    let update = register_in_aggregator("/d/default.nix", "a", Some(prior.clone()), 7);
    assert!(update.change.changed);
    assert_eq!(update.change.prior.as_deref(), Some(prior.as_str()));
    assert_eq!(update.change.backup.as_deref(), Some("/d/default.nix.bak"));
    match &update.steps[1] {
        FileChange::Write { content, .. } => {
            assert_eq!(content.matches("a.nix").count(), 1);
            assert_eq!(extract_imports(content), strings(&["./a.nix", "./b.nix"]));
            let again = register_in_aggregator("/d/default.nix", "a", Some(content.clone()), 7);
            assert!(!again.change.changed && again.steps.is_empty());
        }
        other => panic!("{:?}", other),
    }
}

#[test]
fn any_plan_name_without_white_space_and_bracket_is_recognized_again() {
    for id in ["a#b", "a\"b", "(x", "*", "a/*b", "''", "${", "{", "\\"] {
        let first = register_in_aggregator("/a", id, Some("imports = [ <h> ]".to_owned()), 1);
        match &first.steps[1] {
            FileChange::Write { content, .. } => {
                assert_eq!(extract_imports(content), vec!["<h>".to_owned(), format!("./{}.nix", id)]);
                assert!(!register_in_aggregator("/a", id, Some(content.clone()), 1).change.changed);
            }
            other => panic!("{:?}", other),
        }
    }
}

#[test]
fn a_plan_name_with_a_space_is_not_recognized_again() {
    let first = register_in_aggregator("/a", "x y", None, 1);
    match &first.steps[0] {
        FileChange::Write { content, .. } => {
            assert_eq!(extract_imports(content), strings(&["./x", "y.nix"]));
            assert!(register_in_aggregator("/a", "x y", Some(content.clone()), 1).change.changed);
        }
        other => panic!("{:?}", other),
    }
}

#[test]
fn a_new_aggregator_is_removed_again() {
    let change = AggregatorChange { changed: true, prior: None, backup: None };
    let steps = restore_aggregator("/a", &change, 1);
    assert_eq!(steps.len(), 1);
    assert!(matches!(&steps[0], FileChange::Remove { path } if path == "/a"));
}

// ── Files ───────────────────────────────────────────────────────────────────

#[test]
fn an_atomic_write_goes_through_a_temporary_file() {
    let mut list = Vec::new();
    atomic_write(&mut list, "/f", "text", 4294967295);
    assert_eq!(list.len(), 2);
    assert!(matches!(&list[0], FileChange::Write { path, content }
        if path == "/f.tmp.4294967295" && content == "text"));
    assert!(matches!(&list[1], FileChange::Commit { temp, path }
        if temp == "/f.tmp.4294967295" && path == "/f"));
    assert_eq!(list[0].subject(), "/f.tmp.4294967295");
    assert_eq!(list[1].subject(), "/f");
    assert_eq!(FileChange::CreateDirAll { path: "/d".to_owned() }.subject(), "/d");
    assert_eq!(FileChange::Remove { path: "/r".to_owned() }.subject(), "/r");
    let aside = FileChange::SetAside { path: "/p".to_owned(), dest: "/q".to_owned() };
    assert_eq!(aside.subject(), "/p");
}

#[test]
fn a_failed_module_is_quarantined() {
    let cfg = NixosApplyConfig::for_config_dir("/n".to_owned(), None);
    let mut list = Vec::new();
    let dest = quarantine_module(&mut list, &cfg, "/n/modules/ai-generated/p.nix");
    assert_eq!(dest, "/n/modules/ai-generated/failed/p.nix");
    assert!(matches!(&list[0], FileChange::CreateDirAll { path }
        if path == "/n/modules/ai-generated/failed"));
    assert_eq!(
        quarantine_module(&mut list, &cfg, "/"),
        "/n/modules/ai-generated/failed/module.nix"
    );
}

#[test]
fn a_rollback_restores_the_prior_module() {
    let cfg = NixosApplyConfig::for_config_dir("/n".to_owned(), None);
    let mut report = RegisterReport {
        module_file: "/n/p.nix".to_owned(),
        aggregator_path: "/n/default.nix".to_owned(),
        root_config_path: "/n/c.nix".to_owned(),
        packages: Vec::new(),
        module_prior: Some("old".to_owned()),
        aggregator_change: AggregatorChange {
            changed: true,
            prior: Some("agg".to_owned()),
            backup: None,
        },
        plan_id: "p".to_owned(),
        prompt: String::new(),
        normalized_source: String::new(),
    };
    let steps = rollback(&cfg, &report, 1);
    let subjects: Vec<String> = steps.iter().map(|s| s.subject()).collect();
    assert_eq!(
        subjects,
        strings(&["/n/default.nix.tmp.1", "/n/default.nix", "/n/p.nix.tmp.1", "/n/p.nix"])
    );
    report.module_prior = None;
    report.aggregator_change.prior = None;
    let steps = rollback(&cfg, &report.clone(), 1);
    assert_eq!(steps.len(), 3);
    assert!(matches!(&steps[0], FileChange::Remove { path } if path == "/n/default.nix"));
    assert!(matches!(&steps[2], FileChange::SetAside { path, dest }
        if path == "/n/p.nix" && dest == "/n/modules/ai-generated/failed/p.nix"));
}

// ── Root configuration ──────────────────────────────────────────────────────

#[test]
fn only_lines_that_are_no_comment_count() {
    assert!(root_imports_aggregator("modules/ai-generated"));
    assert!(root_imports_aggregator("# x\r\n  ./modules/ai-generated # y\r\n"));
    assert!(!root_imports_aggregator("   # modules/ai-generated"));
    assert!(!root_imports_aggregator("modules/ai\n-generated"));
    assert!(!root_imports_aggregator(""));
}

#[test]
fn the_root_check_says_what_to_do() {
    let cfg = NixosApplyConfig::for_config_dir("/n".to_owned(), None);
    assert!(verify_root_config(&cfg, Ok(Some("./modules/ai-generated".to_owned()))).is_ok());
    match verify_root_config(&cfg, Ok(Some(String::new()))) {
        Err(InstallError::RootNotImporting { root_config, import, rebuild }) => {
            assert_eq!(root_config, "/n/configuration.nix");
            assert_eq!(import, "./modules/ai-generated");
            assert_eq!(rebuild, "sudo nixos-rebuild test");
        }
        other => panic!("{:?}", other),
    }
    assert!(matches!(verify_root_config(&cfg, Ok(None)), Err(InstallError::RootConfigMissing(_))));
    assert!(matches!(
        verify_root_config(&cfg, Err("x".to_owned())),
        Err(InstallError::Io { .. })
    ));
}

// ── Packages ────────────────────────────────────────────────────────────────

#[test]
fn only_plain_package_names_are_taken() {
    let src = "environment.systemPackages = with pkgs; [\n  _a b-2 pkgs.c (d) pkgs.e.f 9x \"g\" pkgs. ]; [ z ]";
    assert_eq!(parse_system_packages(src), strings(&["_a", "b-2", "c"]));
    let src = "environment.systemPackages = [ (vim.override { lua = true; plugins = [ x ]; }) fd # fast find\n \"no name\" jq /* no more */ ];";
    assert_eq!(parse_system_packages(src), strings(&["fd", "jq"]));
    let src = "# environment.systemPackages = [ old ];\nenvironment.systemPackages = [ new ];";
    assert_eq!(parse_system_packages(src), strings(&["new"]));
    for none in ["", "environment.systemPackages", "environment.systemPackages = [ a", "systemPackages = [ a ]"] {
        assert!(parse_system_packages(none).is_empty(), "{}", none);
    }
    assert!(is_package_ident("ripgrep"));
    assert!(!is_package_ident(""));
    assert!(!is_package_ident("-a"));
    assert!(!is_package_ident("a'"));
    assert!(!is_package_ident("é"));
}

/// Knows some programs.
struct Knows(Vec<String>);

impl BinaryProbe for Knows {
    fn resolve(&self, binary: &str) -> Option<String> {
        self.0.iter().find(|b| b.as_str() == binary).map(|b| format!("/bin/{}", b))
    }
}

#[test]
fn every_package_is_found_or_missing() {
    let probe = Knows(strings(&["rg", "htop"]));
    let report = verify_binaries(&probe, &strings(&["fd", "ripgrep", "jq", "htop"]));
    assert_eq!(report.found, strings(&["/bin/rg", "/bin/htop"]));
    assert_eq!(
        report.missing,
        vec![
            MissingBinary { package: "fd".to_owned(), binary: "fd".to_owned() },
            MissingBinary { package: "jq".to_owned(), binary: "jq".to_owned() },
        ]
    );
    let none = Knows(Vec::new());
    let report = verify_binaries(&none, &strings(&["ripgrep"]));
    assert_eq!(report.missing[0].package, "ripgrep");
    assert_eq!(report.missing[0].binary, "rg");
    assert!(verify_binaries(&none, &[]).missing.is_empty());
    assert!(BinaryReport::default().found.is_empty());
}

#[test]
fn the_default_probe_looks_at_the_current_system() {
    let probe = FsBinaryProbe::default();
    assert_eq!(probe.candidate("rg"), "/run/current-system/sw/bin/rg");
    assert_eq!(probe.resolve("rg", true).as_deref(), Some("/run/current-system/sw/bin/rg"));
    assert_eq!(probe.resolve("rg", false), None);
}

// ── Provenance ──────────────────────────────────────────────────────────────

#[test]
fn a_prompt_of_several_lines_stays_comment() {
    let text = render_module("id", "one\n}\ntwo", "{ }: { }\n");
    assert_eq!(
        text,
        "# Generated by nix-agent — do not edit by hand.\n# plan-id: id\n# prompt: one } two\n\n{ }: { }\n"
    );
}
