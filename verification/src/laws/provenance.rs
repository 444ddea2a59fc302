//! Laws of the provenance comment.

use vstd::prelude::*;

use crate::install::provenance::{build_repair_prompt, module_text, provenance, render_module};
use crate::text::{at_newline, ends_with, lines_of, on_one_line, split_where, starts_with};
use crate::text_lemmas::{lemma_split_where_at, lemma_split_whole};

verus! {

/// An installed module is its provenance comment and then the module, whole; the
/// prompt is on one line of the comment.
pub proof fn law_module_stands_behind_its_comment(
    plan_id: Seq<char>,
    prompt: Seq<char>,
    module: Seq<char>,
)
    ensures
        !on_one_line(prompt).contains('\n'),
        on_one_line(prompt).len() == prompt.len(),
        starts_with(module_text(plan_id, prompt, module), provenance(plan_id, prompt)),
        ends_with(module_text(plan_id, prompt, module), module),
{
    let head = provenance(plan_id, prompt);
    let text = module_text(plan_id, prompt, module);
    assert(text.subrange(0, head.len() as int) =~= head);
    assert(text.subrange(text.len() - module.len(), text.len() as int) =~= module);
}

/// An installed text names its plan and its prompt in a comment, and then holds the
/// module.
pub proof fn law_installed_text_tells_where_it_comes_from(
    plan_id: &str,
    prompt: &str,
    module: &str,
    text: String,
)
    requires
        call_ensures(render_module, (plan_id, prompt, module), text),
    ensures
        exists|line: Seq<char>|
            line.len() == prompt@.len() && (forall|i: int|
                0 <= i < line.len() ==> #[trigger] line[i] == if prompt@[i] == '\n' {
                    ' '
                } else {
                    prompt@[i]
                }) && text@ == #[trigger] (
            "# Generated by nix-agent — do not edit by hand.\n# plan-id: "@ + plan_id@
                + "\n# prompt: "@ + line + "\n\n"@ + module@),
{
    let line = on_one_line(prompt@);
    assert(text@ =~= "# Generated by nix-agent — do not edit by hand.\n# plan-id: "@ + plan_id@
        + "\n# prompt: "@ + line + "\n\n"@ + module@);
}

/// The prompt for a repair holds what the build printed and then the module that
/// failed, and asks for the module alone.
pub proof fn law_repair_prompt_holds_error_and_source(
    failed_module: &str,
    stderr: &str,
    prompt: String,
)
    requires
        call_ensures(build_repair_prompt, (failed_module, stderr), prompt),
    ensures
        prompt@
            == "[SYSTEM] You are an expert NixOS fixer. The module you just generated failed to compile.\n[ERROR] "@
            + stderr@ + "\n[SOURCE] "@ + failed_module@
            + "\nFix the error by regenerating the valid Nix module code. Maintain the exact required function header structure. Do not include prose."@,
{
}

/// The pieces of a text that consists of one line and the lines after it.
proof fn lemma_first_line(line: Seq<char>, rest: Seq<char>)
    requires
        !line.contains('\n'),
    ensures
        split_where(line.push('\n') + rest, at_newline()) == seq![line] + split_where(
            rest,
            at_newline(),
        ),
{
    lemma_split_where_at(line, '\n', rest, at_newline());
    assert forall|i: int| 0 <= i < line.len() implies !at_newline()(#[trigger] line[i]) by {
        assert(line.contains(line[i]));
    }
    lemma_split_whole(line, at_newline());
}

/// Every line of the provenance comment is empty or a comment, whatever the
/// prompt holds, if the name of the plan is on one line.
pub proof fn law_provenance_is_all_comment(plan_id: Seq<char>, prompt: Seq<char>, i: int)
    requires
        !plan_id.contains('\n'),
        0 <= i < lines_of(provenance(plan_id, prompt)).len(),
    ensures
        ({
            let line = lines_of(provenance(plan_id, prompt))[i];
            line.len() == 0 || line[0] == '#'
        }),
{
    reveal_strlit("# Generated by nix-agent — do not edit by hand.\n# plan-id: ");
    reveal_strlit("\n# prompt: ");
    reveal_strlit("\n\n");
    let top = "# Generated by nix-agent — do not edit by hand.\n# plan-id: "@;
    let n = top.len() as int;
    let first = top.take(n - 12);
    let second = top.skip(n - 11) + plan_id;
    let third = "\n# prompt: "@.skip(1) + on_one_line(prompt);
    let none = Seq::<char>::empty();
    assert(first.push('\n') + (second.push('\n') + (third.push('\n') + (none.push('\n') + none)))
        =~= provenance(plan_id, prompt));
    assert(!first.contains('\n'));
    assert forall|k: int| 0 <= k < second.len() implies second[k] != '\n' by {
        if k >= 11 {
            assert(second[k] == plan_id[k - 11]);
        }
    }
    assert forall|k: int| 0 <= k < third.len() implies third[k] != '\n' by {
        if k >= 10 {
            assert(third[k] == on_one_line(prompt)[k - 10]);
        }
    }
    lemma_first_line(none, none);
    lemma_first_line(third, none.push('\n') + none);
    lemma_first_line(second, third.push('\n') + (none.push('\n') + none));
    lemma_first_line(
        first,
        second.push('\n') + (third.push('\n') + (none.push('\n') + none)),
    );
    let pieces = split_where(provenance(plan_id, prompt), at_newline());
    assert(split_where(none, at_newline()) =~= seq![none]);
    assert(pieces =~= seq![first, second, third, none, none]);
}

} // verus!
