//! Laws of paths, and of the paths that a configuration is made of.

use vstd::prelude::*;

use crate::execution::BuildMode;
use crate::install::config::{config_for, NixosApplyConfig};
use crate::laws::activate::lemma_name_behind;
use crate::paths::{
    bare_path, file_name_of, joined_path, lemma_name_start, name_start, parent_of,
};

verus! {

// ── Parts of a path ─────────────────────────────────────────────────────────

/// A relative path is put behind a directory and one separator; an absolute one
/// stands for itself.
pub proof fn law_paths_are_joined_by_one_separator(base: Seq<char>, rel: Seq<char>)
    ensures
        rel.len() > 0 && rel[0] == '/' ==> joined_path(base, rel) == rel,
        rel.len() == 0 || rel[0] != '/' ==> {
            &&& base.len() > 0 && base.last() != '/' ==> joined_path(base, rel) == base + seq!['/']
                + rel
            &&& base.len() > 0 && base.last() == '/' ==> joined_path(base, rel) == base + rel
            &&& base.len() == 0 ==> joined_path(base, rel) == rel
        },
{
    assert(base.push('/') + rel =~= base + seq!['/'] + rel);
    if base.len() == 0 {
        assert(base + rel =~= rel);
    }
}

/// Whether a text can be the name of a file: not empty, no separator, and neither
/// `.` nor `..`.
pub open spec fn names_a_file(name: Seq<char>) -> bool {
    &&& name.len() > 0
    &&& !name.contains('/')
    &&& name != seq!['.']
    &&& name != seq!['.', '.']
}

/// A path that ends with the name of a file is bare.
proof fn lemma_named_is_bare(before: Seq<char>, name: Seq<char>)
    requires
        names_a_file(name),
        before.len() == 0 || before.last() == '/',
    ensures
        bare_path(before + name) == before + name,
        name_start(before + name) == before.len(),
        (before + name).skip(before.len() as int) == name,
{
    let p = before + name;
    assert(name.contains(name[name.len() - 1]));
    assert(p.last() == name[name.len() - 1]);
    if name.len() > 1 {
        assert(name.contains(name[name.len() - 2]));
        assert(p[p.len() - 2] == name[name.len() - 2]);
    } else if p.last() == '.' {
        assert(name =~= seq!['.']);
    }
    if before.len() > 0 {
        lemma_name_behind(before, name);
    } else {
        lemma_name_start(p);
        if name_start(p) > 0 {
            assert(p[name_start(p) - 1] == name[name_start(p) - 1]);
            assert(name.contains(name[name_start(p) - 1]));
        }
    }
    assert(p.skip(before.len() as int) =~= name);
}

/// The last component of a path is the name of its file, and the rest without the
/// separator is its directory.
pub proof fn law_a_path_is_its_directory_and_its_name(dir: Seq<char>, name: Seq<char>)
    requires
        names_a_file(name),
        dir.len() > 0,
        dir.last() != '/',
        dir.last() == '.' && dir.len() > 1 ==> dir[dir.len() - 2] != '/',
    ensures
        file_name_of(dir + seq!['/'] + name) == Some(name),
        parent_of(dir + seq!['/'] + name) == Some(dir),
{
    let before = dir + seq!['/'];
    lemma_named_is_bare(before, name);
    let p = before + name;
    assert(p.take(before.len() as int) =~= before);
    assert(before.drop_last() =~= dir);
    assert(bare_path(before) == bare_path(dir));
    assert(p != seq!['/']);
}

/// A name alone is in no directory, one behind the root is in the root.
pub proof fn law_a_lone_name_has_no_directory(name: Seq<char>)
    requires
        names_a_file(name),
    ensures
        file_name_of(name) == Some(name),
        parent_of(name) == Some(Seq::<char>::empty()),
        file_name_of(seq!['/'] + name) == Some(name),
        parent_of(seq!['/'] + name) == Some(seq!['/']),
        parent_of(seq!['/']) is None,
        parent_of(Seq::empty()) is None,
{
    let none = Seq::<char>::empty();
    let root = seq!['/'];
    lemma_named_is_bare(none, name);
    assert(none + name =~= name);
    assert(name.take(0) =~= none);
    assert(name.contains(name[0]));
    assert(name != root);
    lemma_named_is_bare(root, name);
    assert((root + name).take(1) =~= root);
    assert((root + name).len() > 1);
}

/// Separators and `.` at the end of a path do not count.
pub proof fn law_ends_of_paths_do_not_count(path: Seq<char>)
    requires
        path.len() > 0,
    ensures
        file_name_of(path.push('/')) == file_name_of(path),
        parent_of(path.push('/')) == parent_of(path),
        file_name_of(path.push('/').push('.')) == file_name_of(path),
        parent_of(path.push('/').push('.')) == parent_of(path),
{
    let a = path.push('/');
    let b = a.push('.');
    assert(a.drop_last() =~= path);
    assert(b.drop_last() =~= a);
    assert(b[b.len() - 2] == '/');
    assert(bare_path(a) == bare_path(path));
    assert(bare_path(b) == bare_path(a));
}

/// `..` is no name of a file.
pub proof fn law_the_directory_above_is_no_file(dir: Seq<char>)
    requires
        dir.len() == 0 || dir.last() == '/',
    ensures
        file_name_of(dir + seq!['.', '.']) is None,
{
    let up = seq!['.', '.'];
    let p = dir + up;
    assert(p[p.len() - 2] == '.');
    assert(bare_path(p) == p);
    assert(!up.contains('/'));
    if dir.len() > 0 {
        lemma_name_behind(dir, up);
    } else {
        lemma_name_start(p);
        assert(p =~= up);
        if name_start(p) > 0 {
            assert(up[name_start(p) - 1] == '/');
        }
    }
    assert(p.skip(dir.len() as int) =~= up);
}

// ── Paths of a configuration ────────────────────────────────────────────────

/// Every path is derived from the configuration directory, but for a root
/// configuration of its own; modules lie beside the aggregator, each under the
/// name of its plan.
pub proof fn law_paths_are_derived_from_the_directory(
    dir: Seq<char>,
    root_config: Option<Seq<char>>,
    plan_id: Seq<char>,
)
    requires
        plan_id.len() > 0 ==> plan_id[0] != '/',
    ensures
        ({
            let config = config_for(dir, root_config);
            let base = if dir.len() == 0 || dir.last() == '/' {
                dir
            } else {
                dir + seq!['/']
            };
            &&& config.config_dir == dir
            &&& config.generated_modules_dir == base + "modules/ai-generated"@
            &&& config.aggregator_path == base + "modules/ai-generated/default.nix"@
            &&& config.module_file(plan_id) == base + "modules/ai-generated/"@ + plan_id + ".nix"@
            &&& config.root_config_path == match root_config {
                Some(path) => path,
                None => base + "configuration.nix"@,
            }
            &&& config.rebuild_mode == BuildMode::Test
        }),
{
    reveal_strlit("modules");
    reveal_strlit("ai-generated");
    reveal_strlit("default.nix");
    reveal_strlit("configuration.nix");
    reveal_strlit(".nix");
    reveal_strlit("modules/ai-generated");
    reveal_strlit("modules/ai-generated/");
    reveal_strlit("modules/ai-generated/default.nix");
    let config = config_for(dir, root_config);
    let base = if dir.len() == 0 || dir.last() == '/' {
        dir
    } else {
        dir + seq!['/']
    };
    let modules = joined_path(dir, "modules"@);
    assert(modules =~= base + "modules"@);
    let generated = config.generated_modules_dir;
    assert(generated =~= modules.push('/') + "ai-generated"@);
    assert(generated =~= base + "modules/ai-generated"@);
    assert(config.aggregator_path =~= generated.push('/') + "default.nix"@);
    assert(config.aggregator_path =~= base + "modules/ai-generated/default.nix"@);
    let name = plan_id + ".nix"@;
    assert(name[0] != '/');
    assert(config.module_file(plan_id) =~= generated.push('/') + name);
    assert(config.module_file(plan_id) =~= base + "modules/ai-generated/"@ + plan_id + ".nix"@);
    assert(joined_path(dir, "configuration.nix"@) =~= base + "configuration.nix"@);
}

/// A configuration takes its directory and its root configuration from what it is
/// given; an empty value counts as none, and the directory is then `/etc/nixos`.
pub proof fn law_configuration_follows_the_environment(
    dir: Option<String>,
    root_config: Option<String>,
    config: NixosApplyConfig,
)
    requires
        call_ensures(NixosApplyConfig::resolve, (dir, root_config), config),
    ensures
        ({
            let given_dir = dir matches Some(d) && d@.len() > 0;
            let given_root = root_config matches Some(r) && r@.len() > 0;
            &&& given_dir ==> config.config_dir@ == dir->0@
            &&& !given_dir ==> config.config_dir@ == "/etc/nixos"@
            &&& given_root ==> config.root_config_path@ == root_config->0@
            &&& !given_root ==> config.root_config_path@ == joined_path(
                config.config_dir@,
                "configuration.nix"@,
            )
            &&& config@ == config_for(config.config_dir@, Some(config.root_config_path@))
        }),
{
}

/// The rebuild command is that of a rebuild that is only tried, with or without
/// `sudo`.
pub proof fn law_rebuild_command_tries_the_system(
    config: &NixosApplyConfig,
    with_sudo: bool,
    command: String,
)
    requires
        call_ensures(NixosApplyConfig::rebuild_command, (config, with_sudo), command),
    ensures
        with_sudo ==> command@ == "sudo nixos-rebuild test"@,
        !with_sudo ==> command@ == "nixos-rebuild test"@,
{
    reveal_strlit("sudo ");
    reveal_strlit("nixos-rebuild ");
    reveal_strlit("test");
    reveal_strlit("sudo nixos-rebuild test");
    reveal_strlit("nixos-rebuild test");
    assert(with_sudo ==> command@ =~= "sudo nixos-rebuild test"@);
    assert(!with_sudo ==> command@ =~= "nixos-rebuild test"@);
}

/// Without an environment the configuration is that of `/etc/nixos`.
pub proof fn law_the_default_is_the_system(config: NixosApplyConfig)
    requires
        call_ensures(NixosApplyConfig::default, (), config),
    ensures
        config.config_dir@ == "/etc/nixos"@,
        config.generated_modules_dir@ == "/etc/nixos/modules/ai-generated"@,
        config.aggregator_path@ == "/etc/nixos/modules/ai-generated/default.nix"@,
        config.root_config_path@ == "/etc/nixos/configuration.nix"@,
{
    reveal_strlit("/etc/nixos");
    reveal_strlit("modules");
    reveal_strlit("ai-generated");
    reveal_strlit("default.nix");
    reveal_strlit("configuration.nix");
    reveal_strlit("/etc/nixos/modules/ai-generated");
    reveal_strlit("/etc/nixos/modules/ai-generated/default.nix");
    reveal_strlit("/etc/nixos/configuration.nix");
    let dir = "/etc/nixos"@;
    let modules = joined_path(dir, "modules"@);
    assert(modules == dir.push('/') + "modules"@);
    assert(modules.last() == 's');
    assert(config.generated_modules_dir@ =~= "/etc/nixos/modules/ai-generated"@);
    assert(config.aggregator_path@ =~= "/etc/nixos/modules/ai-generated/default.nix"@);
    assert(config.root_config_path@ =~= "/etc/nixos/configuration.nix"@);
}

/// A configuration for a directory and a root is made of these, and a copy is the
/// same.
pub proof fn law_configurations_are_for_their_directory(
    config_dir: String,
    root_config: Option<String>,
    config: NixosApplyConfig,
    copy: NixosApplyConfig,
)
    requires
        call_ensures(NixosApplyConfig::for_config_dir, (config_dir, root_config), config),
        call_ensures(NixosApplyConfig::clone, (&config,), copy),
    ensures
        config.config_dir@ == config_dir@,
        config.generated_modules_dir@ == joined_path(
            joined_path(config_dir@, "modules"@),
            "ai-generated"@,
        ),
        config.aggregator_path@ == joined_path(config.generated_modules_dir@, "default.nix"@),
        root_config matches Some(root) ==> config.root_config_path@ == root@,
        root_config is None ==> config.root_config_path@ == joined_path(
            config_dir@,
            "configuration.nix"@,
        ),
        copy.config_dir@ == config.config_dir@,
        copy.generated_modules_dir@ == config.generated_modules_dir@,
        copy.aggregator_path@ == config.aggregator_path@,
        copy.root_config_path@ == config.root_config_path@,
        copy.rebuild_mode == config.rebuild_mode,
{
    assert(copy@ == config@);
}

} // verus!
