//! The texts that go with a module: its provenance comment and the prompt for
//! its repair.

use vstd::prelude::*;
use vstd::string::*;

use crate::text::{on_one_line, unbroken};

verus! {

/// The comment that goes before an installed module.
pub open spec fn provenance(plan_id: Seq<char>, prompt: Seq<char>) -> Seq<char> {
    "# Generated by nix-agent — do not edit by hand.\n# plan-id: "@ + plan_id + "\n# prompt: "@
        + on_one_line(prompt) + "\n\n"@
}

/// A module as it is installed: behind its provenance comment.
pub open spec fn module_text(plan_id: Seq<char>, prompt: Seq<char>, module: Seq<char>) -> Seq<
    char,
> {
    provenance(plan_id, prompt) + module
}

/// Puts the provenance comment before a module. The prompt is kept on one line,
/// so that all of it is comment.
pub fn render_module(plan_id: &str, prompt: &str, module: &str) -> (r: String)
    ensures
        r@ == module_text(plan_id@, prompt@, module@),
{
    let mut out = "# Generated by nix-agent — do not edit by hand.\n# plan-id: ".to_owned();
    out.append(plan_id);
    out.append("\n# prompt: ");
    out.append(unbroken(prompt).as_str());
    out.append("\n\n");
    out.append(module);
    out
}

/// The prompt that asks for a repaired module.
pub open spec fn repair_prompt(failed_module: Seq<char>, stderr: Seq<char>) -> Seq<char> {
    "[SYSTEM] You are an expert NixOS fixer. The module you just generated failed to compile.\n[ERROR] "@
        + stderr + "\n[SOURCE] "@ + failed_module
        + "\nFix the error by regenerating the valid Nix module code. Maintain the exact required function header structure. Do not include prose."@
}

/// The prompt that asks for a repaired module: what the rebuild reported, then
/// the module that failed.
pub fn build_repair_prompt(failed_module: &str, stderr: &str) -> (r: String)
    ensures
        r@ == repair_prompt(failed_module@, stderr@),
{
    let mut out =
        "[SYSTEM] You are an expert NixOS fixer. The module you just generated failed to compile.\n[ERROR] ".to_owned();
    out.append(stderr);
    out.append("\n[SOURCE] ");
    out.append(failed_module);
    out.append(
        "\nFix the error by regenerating the valid Nix module code. Maintain the exact required function header structure. Do not include prose.",
    );
    out
}

} // verus!
