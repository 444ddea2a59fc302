//! Where on the system a module is installed.

use vstd::prelude::*;
use vstd::string::*;

use crate::execution::BuildMode;
use crate::paths::{join_path, joined_path};

verus! {

/// The system configuration directory of a NixOS without flakes.
pub const DEFAULT_CONFIG_DIR: &'static str = "/etc/nixos";

/// The import that the root configuration must hold, relative to the
/// configuration directory.
pub const AGGREGATOR_IMPORT: &'static str = "./modules/ai-generated";

/// Where an applied module is installed, and how it is activated.
#[derive(Debug, PartialEq, Eq)]
pub struct NixosApplyConfig {
    pub config_dir: String,
    pub generated_modules_dir: String,
    pub aggregator_path: String,
    pub root_config_path: String,
    pub rebuild_mode: BuildMode,
}

/// A [`NixosApplyConfig`] with its texts.
#[verifier::ext_equal]
pub struct ConfigView {
    pub config_dir: Seq<char>,
    pub generated_modules_dir: Seq<char>,
    pub aggregator_path: Seq<char>,
    pub root_config_path: Seq<char>,
    pub rebuild_mode: BuildMode,
}

impl View for NixosApplyConfig {
    type V = ConfigView;

    open spec fn view(&self) -> ConfigView {
        ConfigView {
            config_dir: self.config_dir@,
            generated_modules_dir: self.generated_modules_dir@,
            aggregator_path: self.aggregator_path@,
            root_config_path: self.root_config_path@,
            rebuild_mode: self.rebuild_mode,
        }
    }
}

/// The directory of the generated modules under a configuration directory.
pub open spec fn generated_dir(config_dir: Seq<char>) -> Seq<char> {
    joined_path(joined_path(config_dir, "modules"@), "ai-generated"@)
}

/// The configuration for a directory and, if given, a root configuration file
/// of its own.
pub open spec fn config_for(config_dir: Seq<char>, root_config: Option<Seq<char>>) -> ConfigView {
    ConfigView {
        config_dir,
        generated_modules_dir: generated_dir(config_dir),
        aggregator_path: joined_path(generated_dir(config_dir), "default.nix"@),
        root_config_path: match root_config {
            Some(p) => p,
            None => joined_path(config_dir, "configuration.nix"@),
        },
        rebuild_mode: BuildMode::Test,
    }
}

/// The value of an environment variable, where it is set and not empty.
pub open spec fn given(value: Option<String>) -> Option<Seq<char>> {
    match value {
        Some(v) => if v@.len() > 0 {
            Some(v@)
        } else {
            None
        },
        None => None,
    }
}

/// The path that an environment variable gives: none where it is unset or empty.
pub fn env_path(value: Option<String>) -> (r: Option<String>)
    ensures
        match r {
            Some(p) => given(value) == Some(p@),
            None => given(value) is None,
        },
{
    match value {
        Some(v) => if v.as_str().is_empty() {
            None
        } else {
            Some(v)
        },
        None => None,
    }
}

impl ConfigView {
    /// Where the module of a plan is installed.
    pub open spec fn module_file(self, plan_id: Seq<char>) -> Seq<char> {
        joined_path(self.generated_modules_dir, plan_id + ".nix"@)
    }

    /// The rebuild command as the operator would type it.
    pub open spec fn rebuild_text(self, with_sudo: bool) -> Seq<char> {
        (if with_sudo {
            "sudo "@
        } else {
            Seq::empty()
        }) + "nixos-rebuild "@ + self.rebuild_mode.subcommand_text()
    }
}

impl NixosApplyConfig {
    /// Derives every path from one configuration directory; the root
    /// configuration file may be given on its own.
    pub fn for_config_dir(config_dir: String, root_config: Option<String>) -> (config: Self)
        ensures
            config@ == config_for(
                config_dir@,
                match root_config {
                    Some(p) => Some(p@),
                    None => None,
                },
            ),
    {
        let modules = join_path(config_dir.as_str(), "modules");
        let generated_modules_dir = join_path(modules.as_str(), "ai-generated");
        let aggregator_path = join_path(generated_modules_dir.as_str(), "default.nix");
        let root_config_path = match root_config {
            Some(p) => p,
            None => join_path(config_dir.as_str(), "configuration.nix"),
        };
        NixosApplyConfig {
            config_dir,
            generated_modules_dir,
            aggregator_path,
            root_config_path,
            rebuild_mode: BuildMode::Test,
        }
    }

    /// The configuration that the values of `NIX_AGENT_CONFIG_DIR` and
    /// `NIX_AGENT_CONFIG` give: the directory defaults to
    /// [`DEFAULT_CONFIG_DIR`], the root configuration to `configuration.nix`
    /// in it.
    pub fn resolve(config_dir: Option<String>, root_config: Option<String>) -> (config: Self)
        ensures
            config@ == config_for(
                match given(config_dir) {
                    Some(d) => d,
                    None => DEFAULT_CONFIG_DIR@,
                },
                given(root_config),
            ),
    {
        let dir = match env_path(config_dir) {
            Some(d) => d,
            None => DEFAULT_CONFIG_DIR.to_owned(),
        };
        NixosApplyConfig::for_config_dir(dir, env_path(root_config))
    }

    /// Where the module of the plan `plan_id` is installed.
    pub fn module_path_for(&self, plan_id: &str) -> (path: String)
        ensures
            path@ == self@.module_file(plan_id@),
    {
        let name = plan_id.to_owned().concat(".nix");
        join_path(self.generated_modules_dir.as_str(), name.as_str())
    }

    /// The rebuild command as the operator would type it.
    pub fn rebuild_command(&self, with_sudo: bool) -> (command: String)
        ensures
            command@ == self@.rebuild_text(with_sudo),
    {
        let mut out = if with_sudo {
            "sudo ".to_owned()
        } else {
            String::new()
        };
        out.append("nixos-rebuild ");
        out.append(self.rebuild_mode.subcommand());
        out
    }
}

impl Clone for NixosApplyConfig {
    fn clone(&self) -> (r: Self)
        ensures
            r@ == self@,
    {
        NixosApplyConfig {
            config_dir: self.config_dir.clone(),
            generated_modules_dir: self.generated_modules_dir.clone(),
            aggregator_path: self.aggregator_path.clone(),
            root_config_path: self.root_config_path.clone(),
            rebuild_mode: self.rebuild_mode,
        }
    }
}

impl Default for NixosApplyConfig {
    fn default() -> (config: Self)
        ensures
            config@ == config_for(DEFAULT_CONFIG_DIR@, None),
    {
        NixosApplyConfig::for_config_dir(DEFAULT_CONFIG_DIR.to_owned(), None)
    }
}

} // verus!
