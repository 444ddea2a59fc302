//! Laws of the interactive session.

use vstd::prelude::*;

use crate::chat::{
    command_of, parse_command, prompt_head, prompt_line, prompt_of, ChatCommand, ChatSession,
    CommandView, SessionView, SystemContext,
};
use crate::laws::text::{law_trimmed_text_is_the_middle, law_trimming_takes_white_space_off};
use crate::text::{contains_text, decimal, occurs_at, starts_with, texts, trimmed, white_space};
use crate::text_lemmas::{
    blank, lemma_trimmed_blank, lemma_trimmed_ends, lemma_trimmed_pad, lemma_trimmed_same,
};

verus! {

/// White space around a line does not change what it stands for.
pub proof fn law_padding_does_not_change_a_command(
    before: Seq<char>,
    line: Seq<char>,
    after: Seq<char>,
)
    requires
        blank(before),
        blank(after),
    ensures
        command_of(trimmed(before + line + after)) == command_of(trimmed(line)),
{
    lemma_trimmed_pad(before, line, after);
}

/// A blank line stands for nothing.
pub proof fn law_blank_line_is_empty(line: Seq<char>)
    requires
        blank(line),
    ensures
        command_of(trimmed(line)) == CommandView::Empty,
{
    lemma_trimmed_blank(line);
}

/// Whether a text is not empty and has no white space at its ends.
pub open spec fn unpadded(line: Seq<char>) -> bool {
    &&& line.len() > 0
    &&& !white_space(line.first())
    &&& !white_space(line.last())
}

/// Whether a line is a word of command: bare, or behind `:` or `/`.
pub open spec fn spells(line: Seq<char>, word: Seq<char>) -> bool {
    line == word || line == seq![':'] + word || line == seq!['/'] + word
}

/// A line stands for a command only where it is a word of that command as a whole,
/// whatever white space is around it; every other line that is not blank is an
/// instruction, word for word.
pub proof fn law_only_whole_words_are_commands(
    input: &str,
    command: ChatCommand,
    before: Seq<char>,
    line: Seq<char>,
    after: Seq<char>,
)
    requires
        call_ensures(parse_command, (input,), command),
        input@ == before + line + after,
        blank(before),
        blank(after),
        unpadded(line),
    ensures
        command is Apply <==> spells(line, "apply"@),
        command is Diff <==> spells(line, "diff"@),
        command is Reset <==> spells(line, "reset"@),
        command is Help <==> spells(line, "help"@) || line == "?"@,
        command is Quit <==> spells(line, "quit"@) || spells(line, "exit"@) || line == ":q"@,
        command !is Empty,
        command matches ChatCommand::Instruction(text) ==> text@ == line,
{
    law_trimming_takes_white_space_off(before, line, after);
    lemma_words_of_command();
    lemma_words_differ(line);
}

/// The spellings of the words of command.
proof fn lemma_words_of_command()
    ensures
        ":apply"@ == seq![':'] + "apply"@ && "/apply"@ == seq!['/'] + "apply"@,
        ":diff"@ == seq![':'] + "diff"@ && "/diff"@ == seq!['/'] + "diff"@,
        ":reset"@ == seq![':'] + "reset"@ && "/reset"@ == seq!['/'] + "reset"@,
        ":help"@ == seq![':'] + "help"@ && "/help"@ == seq!['/'] + "help"@,
        ":quit"@ == seq![':'] + "quit"@ && "/quit"@ == seq!['/'] + "quit"@,
        ":exit"@ == seq![':'] + "exit"@ && "/exit"@ == seq!['/'] + "exit"@,
{
    reveal_strlit("apply");
    reveal_strlit(":apply");
    reveal_strlit("/apply");
    reveal_strlit("diff");
    reveal_strlit(":diff");
    reveal_strlit("/diff");
    reveal_strlit("reset");
    reveal_strlit(":reset");
    reveal_strlit("/reset");
    reveal_strlit("help");
    reveal_strlit(":help");
    reveal_strlit("/help");
    reveal_strlit("quit");
    reveal_strlit(":quit");
    reveal_strlit("/quit");
    reveal_strlit("exit");
    reveal_strlit(":exit");
    reveal_strlit("/exit");
    assert(":apply"@ =~= seq![':'] + "apply"@ && "/apply"@ =~= seq!['/'] + "apply"@);
    assert(":diff"@ =~= seq![':'] + "diff"@ && "/diff"@ =~= seq!['/'] + "diff"@);
    assert(":reset"@ =~= seq![':'] + "reset"@ && "/reset"@ =~= seq!['/'] + "reset"@);
    assert(":help"@ =~= seq![':'] + "help"@ && "/help"@ =~= seq!['/'] + "help"@);
    assert(":quit"@ =~= seq![':'] + "quit"@ && "/quit"@ =~= seq!['/'] + "quit"@);
    assert(":exit"@ =~= seq![':'] + "exit"@ && "/exit"@ =~= seq!['/'] + "exit"@);
}

/// What tells the words of command apart: the letter in the second place, or in
/// the third where a sign goes before.
spec fn mark(line: Seq<char>) -> char {
    if line.len() > 2 && (line[0] == ':' || line[0] == '/') {
        line[2]
    } else if line.len() > 1 {
        line[1]
    } else {
        line[0]
    }
}

/// No line spells two commands.
proof fn lemma_words_differ(line: Seq<char>)
    ensures
        spells(line, "apply"@) ==> mark(line) == 'p',
        spells(line, "diff"@) ==> mark(line) == 'i' && line.last() == 'f',
        spells(line, "reset"@) ==> mark(line) == 'e' && line.last() == 't',
        spells(line, "help"@) ==> mark(line) == 'e' && line.last() == 'p',
        spells(line, "quit"@) ==> mark(line) == 'u',
        spells(line, "exit"@) ==> mark(line) == 'x',
        line == "?"@ ==> mark(line) == '?',
        line == ":q"@ ==> mark(line) == 'q',
{
    reveal_strlit("apply");
    reveal_strlit("diff");
    reveal_strlit("reset");
    reveal_strlit("help");
    reveal_strlit("quit");
    reveal_strlit("exit");
    reveal_strlit("?");
    reveal_strlit(":q");
}

/// A line that holds white space between other characters is an instruction.
pub proof fn law_several_words_are_an_instruction(
    input: &str,
    command: ChatCommand,
    before: Seq<char>,
    line: Seq<char>,
    after: Seq<char>,
    i: int,
)
    requires
        call_ensures(parse_command, (input,), command),
        input@ == before + line + after,
        blank(before),
        blank(after),
        unpadded(line),
        0 <= i < line.len(),
        white_space(line[i]),
    ensures
        command matches ChatCommand::Instruction(text) && text@ == line,
{
    reveal_strlit("apply");
    reveal_strlit("diff");
    reveal_strlit("reset");
    reveal_strlit("help");
    reveal_strlit("quit");
    reveal_strlit("exit");
    reveal_strlit("?");
    reveal_strlit(":q");
    law_only_whole_words_are_commands(input, command, before, line, after);
}

/// A line stands for nothing exactly if it is blank.
pub proof fn law_only_blank_lines_are_empty(input: &str, command: ChatCommand)
    requires
        call_ensures(parse_command, (input,), command),
    ensures
        command is Empty <==> blank(input@),
{
    let s = input@;
    if blank(s) {
        lemma_trimmed_blank(s);
    } else {
        let k = law_trimmed_text_is_the_middle(s);
        let i = choose|i: int| 0 <= i < s.len() && !white_space(#[trigger] s[i]);
        if trimmed(s).len() == 0 {
            if i < k {
                assert(s.take(k)[i] == s[i]);
            } else {
                assert(s.skip(k)[i - k] == s[i]);
            }
        }
    }
}

/// A new session holds nothing, and an instruction goes behind those before it,
/// without the white space around it; what is staged stays.
pub proof fn law_instructions_are_kept_in_order(
    session: SessionView,
    before: Seq<char>,
    line: Seq<char>,
    after: Seq<char>,
)
    requires
        blank(before),
        blank(after),
        unpadded(line),
    ensures
        SessionView::blank().instructions.len() == 0,
        SessionView::blank().staged.len() == 0,
        session.told(before + line + after).instructions == session.instructions.push(line),
        session.told(before + line + after).staged == session.staged,
{
    law_trimming_takes_white_space_off(before, line, after);
}

/// Something is staged exactly if that holds more than white space.
pub proof fn law_blank_text_is_not_staged(session: &ChatSession, r: bool)
    requires
        call_ensures(ChatSession::has_staged, (session,), r),
    ensures
        r <==> !blank(session@.staged),
{
    let s = session@.staged;
    if blank(s) {
        lemma_trimmed_blank(s);
    } else {
        let k = law_trimmed_text_is_the_middle(s);
        let i = choose|i: int| 0 <= i < s.len() && !white_space(#[trigger] s[i]);
        if trimmed(s).len() == 0 {
            if i < k {
                assert(s.take(k)[i] == s[i]);
            } else {
                assert(s.skip(k)[i - k] == s[i]);
            }
        }
    }
}

/// The prompt of a session is the request and then its instructions, each on a
/// line of its own behind its number.
pub proof fn law_prompt_is_the_request_and_the_list(
    a: &ChatSession,
    b: &ChatSession,
    of_a: String,
    of_b: String,
    instruction: Seq<char>,
)
    requires
        call_ensures(ChatSession::session_prompt, (a,), of_a),
        call_ensures(ChatSession::session_prompt, (b,), of_b),
    ensures
        a@.instructions.len() == 0 ==> of_a@
            == "Produce a single NixOS module that satisfies ALL of the following requirements, applied in order:\n"@,
        b@.instructions == a@.instructions.push(instruction) ==> of_b@ == of_a@ + decimal(
            a@.instructions.len() as int + 1,
        ) + ". "@ + instruction + "\n"@,
{
    if a@.instructions.len() == 0 {
        assert(of_a@ =~= prompt_head());
    }
    if b@.instructions == a@.instructions.push(instruction) {
        assert(b@.instructions.drop_last() =~= a@.instructions);
        assert(of_b@ =~= of_a@ + decimal(a@.instructions.len() as int + 1) + ". "@ + instruction
            + "\n"@);
    }
}

/// A blank instruction changes nothing.
pub proof fn law_blank_instruction_is_ignored(session: SessionView, text: Seq<char>)
    requires
        blank(text),
    ensures
        session.told(text) == session,
{
    lemma_trimmed_blank(text);
}

/// Whether every instruction of a session is trimmed and not empty.
pub open spec fn tidy(session: SessionView) -> bool {
    forall|i: int|
        0 <= i < session.instructions.len() ==> (#[trigger] session.instructions[i]).len() > 0
            && trimmed(session.instructions[i]) == session.instructions[i]
}

/// The instructions of a session are trimmed and not empty: of a new session, and
/// after one more instruction.
pub proof fn law_sessions_stay_tidy(session: SessionView, text: Seq<char>)
    requires
        tidy(session),
    ensures
        tidy(SessionView::blank()),
        tidy(session.told(text)),
{
    lemma_trimmed_ends(text);
    lemma_trimmed_same(trimmed(text));
    let told = session.told(text);
    assert forall|i: int| 0 <= i < told.instructions.len() implies (
    #[trigger] told.instructions[i]).len() > 0 && trimmed(told.instructions[i])
        == told.instructions[i] by {
        if i < session.instructions.len() {
            assert(told.instructions[i] == session.instructions[i]);
        }
    }
}

/// A further instruction adds one numbered line to the prompt, and leaves the
/// rest of it as it was.
pub proof fn law_prompt_grows_by_a_line(session: SessionView, text: Seq<char>)
    requires
        trimmed(text).len() > 0,
    ensures
        prompt_of(session.told(text).instructions) == prompt_of(session.instructions)
            + prompt_line(session.instructions.len() as int + 1, trimmed(text)),
{
    let told = session.told(text);
    assert(told.instructions.drop_last() =~= session.instructions);
    assert(prompt_of(told.instructions) =~= prompt_of(session.instructions) + prompt_line(
        session.instructions.len() as int + 1,
        trimmed(text),
    ));
}

/// The prompt carries every instruction, numbered in order from one.
pub proof fn law_prompt_carries_every_instruction(instructions: Seq<Seq<char>>, i: int)
    requires
        0 <= i < instructions.len(),
    ensures
        starts_with(prompt_of(instructions), prompt_head()),
        contains_text(prompt_of(instructions), prompt_line(i + 1, instructions[i])),
    decreases instructions.len(),
{
    let front = instructions.drop_last();
    let n = instructions.len() as int;
    let p = prompt_of(instructions);
    let q = prompt_of(front);
    assert(p =~= q + prompt_line(n, instructions.last()));
    assert(p.subrange(0, prompt_head().len() as int) =~= prompt_head());
    let line = prompt_line(i + 1, instructions[i]);
    if i == n - 1 {
        assert(p.subrange(q.len() as int, q.len() as int + line.len()) =~= line);
        assert(occurs_at(p, line, q.len() as int));
    } else {
        law_prompt_carries_every_instruction(front, i);
        assert(front[i] == instructions[i]);
        let at = choose|at: int| occurs_at(q, line, at);
        assert(p.subrange(at, at + line.len()) =~= q.subrange(at, at + line.len()));
        assert(occurs_at(p, line, at));
    }
}

// ── A session from outside ──────────────────────────────────────────────────

/// A new session shows no instructions and nothing staged.
pub proof fn law_a_new_session_shows_nothing(
    session: ChatSession,
    instructions: &[String],
    staged: &str,
)
    requires
        call_ensures(ChatSession::new, (), session) || call_ensures(
            ChatSession::default,
            (),
            session,
        ),
        call_ensures(ChatSession::instructions, (&session,), instructions),
        call_ensures(ChatSession::staged, (&session,), staged),
    ensures
        instructions@.len() == 0,
        staged@.len() == 0,
{
    assert(texts(instructions@).len() == instructions@.len());
}

/// A session shows the instructions it was told, in their order, and the module that
/// was staged.
pub proof fn law_a_session_shows_what_it_holds(
    session: &ChatSession,
    instructions: &[String],
    staged: &str,
)
    requires
        call_ensures(ChatSession::instructions, (session,), instructions),
        call_ensures(ChatSession::staged, (session,), staged),
    ensures
        instructions@.len() == session@.instructions.len(),
        forall|i: int|
            0 <= i < instructions@.len() ==> #[trigger] instructions@[i]@
                == session@.instructions[i],
        staged@ == session@.staged,
{
    assert(texts(instructions@).len() == instructions@.len());
    assert forall|i: int| 0 <= i < instructions@.len() implies #[trigger] instructions@[i]@
        == session@.instructions[i] by {
        assert(texts(instructions@)[i] == instructions@[i]@);
    }
}

/// A module that was staged is shown as it is, and the instructions stay.
#[allow(dead_code)]
fn law_a_staged_module_is_shown(session: &mut ChatSession, module: String) -> (shown: String)
    ensures
        shown@ == module@,
        final(session)@.staged == module@,
        final(session)@.instructions == old(session)@.instructions,
{
    session.set_staged(module);
    session.staged().to_owned()
}

/// A session that was told something holds it behind what it held, without the white
/// space around it. Blank text changes nothing.
#[allow(dead_code)]
fn law_a_session_holds_what_it_was_told(session: &mut ChatSession, text: &str)
    ensures
        blank(text@) ==> final(session)@ == old(session)@,
        forall|before: Seq<char>, line: Seq<char>, after: Seq<char>|
            text@ == #[trigger] (before + line + after) && blank(before) && blank(after)
                && unpadded(line) ==> final(session)@.instructions
                == old(session)@.instructions.push(line),
        final(session)@.staged == old(session)@.staged,
{
    let ghost first = session@;
    session.add_instruction(text);
    proof {
        if blank(text@) {
            lemma_trimmed_blank(text@);
        }
        assert forall|before: Seq<char>, line: Seq<char>, after: Seq<char>|
            text@ == #[trigger] (before + line + after) && blank(before) && blank(after)
                && unpadded(line) implies session@.instructions == first.instructions.push(
            line,
        ) by {
            law_instructions_are_kept_in_order(first, before, line, after);
        }
    }
}

/// A session that was reset holds nothing.
#[allow(dead_code)]
fn law_a_reset_session_holds_nothing(session: &mut ChatSession) -> (count: usize)
    ensures
        count == 0,
        final(session)@.instructions.len() == 0,
        final(session)@.staged.len() == 0,
{
    session.reset();
    let instructions = session.instructions();
    assert(texts(instructions@).len() == instructions@.len());
    instructions.len()
}

/// A system context tells which of its files are there; a new one has none.
pub proof fn law_a_context_tells_what_is_there(
    context: &SystemContext,
    root: bool,
    aggregator: bool,
    blank_context: SystemContext,
)
    requires
        call_ensures(SystemContext::root_present, (context,), root),
        call_ensures(SystemContext::aggregator_present, (context,), aggregator),
        call_ensures(SystemContext::default, (), blank_context),
    ensures
        root <==> context.root_config is Some,
        aggregator <==> context.aggregator is Some,
        blank_context.root_config is None,
        blank_context.aggregator is None,
{
}

} // verus!
