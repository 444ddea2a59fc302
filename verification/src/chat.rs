//! The pure core of the interactive session: classifying a line of input and
//! accumulating instructions into one generation prompt.

use vstd::prelude::*;
use vstd::string::*;

use crate::text::{append_decimal, decimal, same_text, texts, trim, trimmed};

verus! {

/// A line of session input, classified.
#[derive(Debug, Clone, PartialEq, Eq)]
pub enum ChatCommand {
    /// Deploy the staged module (`apply`).
    Apply,
    /// Show the staged difference again (`diff`).
    Diff,
    /// Discard the staged plan and start over (`reset`).
    Reset,
    /// Show the command help (`help`, `?`).
    Help,
    /// Leave the session (`quit`, `exit`).
    Quit,
    /// A blank line, to be ignored.
    Empty,
    /// Anything else: an instruction in natural language.
    Instruction(String),
}

/// A [`ChatCommand`] with the text of its instruction.
pub enum CommandView {
    Apply,
    Diff,
    Reset,
    Help,
    Quit,
    Empty,
    Instruction(Seq<char>),
}

impl View for ChatCommand {
    type V = CommandView;

    open spec fn view(&self) -> CommandView {
        match self {
            ChatCommand::Apply => CommandView::Apply,
            ChatCommand::Diff => CommandView::Diff,
            ChatCommand::Reset => CommandView::Reset,
            ChatCommand::Help => CommandView::Help,
            ChatCommand::Quit => CommandView::Quit,
            ChatCommand::Empty => CommandView::Empty,
            ChatCommand::Instruction(text) => CommandView::Instruction(text@),
        }
    }
}

/// What a trimmed line stands for. The control commands are bare words or the
/// same words behind `:` or `/`; `?` and `:q` are short for two of them.
pub open spec fn command_of(line: Seq<char>) -> CommandView {
    if line.len() == 0 {
        CommandView::Empty
    } else if line == "apply"@ || line == ":apply"@ || line == "/apply"@ {
        CommandView::Apply
    } else if line == "diff"@ || line == ":diff"@ || line == "/diff"@ {
        CommandView::Diff
    } else if line == "reset"@ || line == ":reset"@ || line == "/reset"@ {
        CommandView::Reset
    } else if line == "help"@ || line == ":help"@ || line == "/help"@ || line == "?"@ {
        CommandView::Help
    } else if line == "quit"@ || line == ":quit"@ || line == "/quit"@ || line == "exit"@ || line
        == ":exit"@ || line == "/exit"@ || line == ":q"@ {
        CommandView::Quit
    } else {
        CommandView::Instruction(line)
    }
}

/// Classifies a line of session input. White space around it does not count.
pub fn parse_command(input: &str) -> (command: ChatCommand)
    ensures
        command@ == command_of(trimmed(input@)),
{
    let line = trim(input);
    if line.is_empty() {
        ChatCommand::Empty
    } else if same_text(line, "apply") || same_text(line, ":apply") || same_text(line, "/apply") {
        ChatCommand::Apply
    } else if same_text(line, "diff") || same_text(line, ":diff") || same_text(line, "/diff") {
        ChatCommand::Diff
    } else if same_text(line, "reset") || same_text(line, ":reset") || same_text(line, "/reset") {
        ChatCommand::Reset
    } else if same_text(line, "help") || same_text(line, ":help") || same_text(line, "/help")
        || same_text(line, "?") {
        ChatCommand::Help
    } else if same_text(line, "quit") || same_text(line, ":quit") || same_text(line, "/quit")
        || same_text(line, "exit") || same_text(line, ":exit") || same_text(line, "/exit")
        || same_text(line, ":q") {
        ChatCommand::Quit
    } else {
        ChatCommand::Instruction(line.to_owned())
    }
}

/// The staging plan of a session: the instructions given so far, in order, and
/// the latest module generated from them.
#[derive(Debug, Clone)]
pub struct ChatSession {
    instructions: Vec<String>,
    staged: String,
}

/// What a session holds.
#[verifier::ext_equal]
pub struct SessionView {
    pub instructions: Seq<Seq<char>>,
    pub staged: Seq<char>,
}

impl View for ChatSession {
    type V = SessionView;

    closed spec fn view(&self) -> SessionView {
        SessionView { instructions: texts(self.instructions@), staged: self.staged@ }
    }
}

/// How every generation prompt begins.
pub open spec fn prompt_head() -> Seq<char> {
    "Produce a single NixOS module that satisfies ALL of the following requirements, applied in order:\n"@
}

/// One numbered line of the generation prompt.
pub open spec fn prompt_line(number: int, instruction: Seq<char>) -> Seq<char> {
    decimal(number) + ". "@ + instruction + "\n"@
}

/// The numbered lines of the generation prompt, one for each instruction.
pub open spec fn prompt_lines(instructions: Seq<Seq<char>>) -> Seq<char>
    decreases instructions.len(),
{
    if instructions.len() == 0 {
        Seq::empty()
    } else {
        prompt_lines(instructions.drop_last()) + prompt_line(
            instructions.len() as int,
            instructions.last(),
        )
    }
}

/// The generation prompt of a list of instructions.
pub open spec fn prompt_of(instructions: Seq<Seq<char>>) -> Seq<char> {
    prompt_head() + prompt_lines(instructions)
}

impl SessionView {
    /// The session without any instruction or staged module.
    pub open spec fn blank() -> SessionView {
        SessionView { instructions: Seq::empty(), staged: Seq::empty() }
    }

    /// The session after one more line of instruction.
    pub open spec fn told(self, text: Seq<char>) -> SessionView {
        if trimmed(text).len() == 0 {
            self
        } else {
            SessionView { instructions: self.instructions.push(trimmed(text)), ..self }
        }
    }
}

impl ChatSession {
    /// A session that holds nothing yet.
    pub fn new() -> (session: Self)
        ensures
            session@ == SessionView::blank(),
    {
        let session = ChatSession { instructions: Vec::new(), staged: String::new() };
        assert(texts(session.instructions@) =~= Seq::<Seq<char>>::empty());
        session
    }

    /// Appends an instruction, trimmed; a blank one is ignored.
    pub fn add_instruction(&mut self, text: &str)
        ensures
            final(self)@ == old(self)@.told(text@),
    {
        let t = trim(text);
        if !t.is_empty() {
            let owned = t.to_owned();
            proof {
                crate::text::lemma_texts_push(self.instructions@, owned);
            }
            self.instructions.push(owned);
        }
    }

    /// Records the latest generated module.
    pub fn set_staged(&mut self, module: String)
        ensures
            final(self)@ == (SessionView { staged: module@, ..old(self)@ }),
    {
        self.staged = module;
    }

    /// The staged module; empty before the first one is recorded.
    pub fn staged(&self) -> (module: &str)
        ensures
            module@ == self@.staged,
    {
        self.staged.as_str()
    }

    /// Whether anything but white space is staged.
    pub fn has_staged(&self) -> (r: bool)
        ensures
            r == (trimmed(self@.staged).len() > 0),
    {
        !trim(self.staged.as_str()).is_empty()
    }

    /// The instructions given so far, in order.
    pub fn instructions(&self) -> (instructions: &[String])
        ensures
            texts(instructions@) == self@.instructions,
    {
        self.instructions.as_slice()
    }

    /// Forgets everything.
    pub fn reset(&mut self)
        ensures
            final(self)@ == SessionView::blank(),
    {
        self.instructions = Vec::new();
        self.staged = String::new();
        assert(texts(self.instructions@) =~= Seq::<Seq<char>>::empty());
    }

    /// The generation prompt: every instruction so far, in order and numbered
    /// from one.
    pub fn session_prompt(&self) -> (prompt: String)
        ensures
            prompt@ == prompt_of(self@.instructions),
    {
        let mut out =
            "Produce a single NixOS module that satisfies ALL of the following requirements, applied in order:\n".to_owned();
        let n: usize = self.instructions.len();
        let ghost all = self@.instructions;
        assert(all.take(0) =~= Seq::<Seq<char>>::empty());
        assert(prompt_head() + Seq::<char>::empty() =~= prompt_head());
        for i in 0..n
            invariant
                n == self.instructions.len(),
                all == self@.instructions,
                out@ == prompt_of(all.take(i as int)),
        {
            append_decimal(&mut out, i as u64 + 1);
            out.append(". ");
            out.append(self.instructions[i].as_str());
            out.append("\n");
            proof {
                assert(all.take(i + 1).drop_last() =~= all.take(i as int));
                assert(out@ =~= prompt_of(all.take(i + 1)));
            }
        }
        assert(all.take(n as int) =~= all);
        out
    }
}

impl Default for ChatSession {
    fn default() -> (session: Self)
        ensures
            session@ == SessionView::blank(),
    {
        ChatSession::new()
    }
}

/// What the session finds on the system when it starts.
#[derive(Debug, Clone)]
pub struct SystemContext {
    /// The root configuration, if it could be read.
    pub root_config: Option<String>,
    /// The aggregator of generated modules, if it could be read.
    pub aggregator: Option<String>,
}

impl SystemContext {
    /// Whether the root configuration could be read.
    pub fn root_present(&self) -> (r: bool)
        ensures
            r == (self.root_config is Some),
    {
        self.root_config.is_some()
    }

    /// Whether the aggregator could be read.
    pub fn aggregator_present(&self) -> (r: bool)
        ensures
            r == (self.aggregator is Some),
    {
        self.aggregator.is_some()
    }
}

impl Default for SystemContext {
    fn default() -> (context: Self)
        ensures
            context.root_config is None,
            context.aggregator is None,
    {
        SystemContext { root_config: None, aggregator: None }
    }
}

} // verus!
