//! The interactive session.

use nix_agent::chat::{parse_command, ChatCommand, ChatSession, SystemContext};

#[test]
fn parses_control_commands_and_instructions() {
    assert_eq!(parse_command(""), ChatCommand::Empty);
    assert_eq!(parse_command("  apply "), ChatCommand::Apply);
    assert_eq!(parse_command("/diff"), ChatCommand::Diff);
    assert_eq!(parse_command(":reset"), ChatCommand::Reset);
    assert_eq!(parse_command("?"), ChatCommand::Help);
    assert_eq!(parse_command("exit"), ChatCommand::Quit);
    assert_eq!(
        parse_command("add tmux with custom aliases"),
        ChatCommand::Instruction("add tmux with custom aliases".to_owned())
    );
}

#[test]
fn session_accumulates_instructions_into_prompt() {
    let mut s = ChatSession::new();
    assert!(!s.has_staged());
    s.add_instruction("add tmux");
    s.add_instruction("   "); // ignored
    s.add_instruction("change tmux aliases to gs=git status");
    assert_eq!(s.instructions().len(), 2);

    let prompt = s.session_prompt();
    assert!(prompt.contains("1. add tmux"));
    assert!(prompt.contains("2. change tmux aliases to gs=git status"));

    s.set_staged("{ ... }: { }".to_owned());
    assert!(s.has_staged());
    s.reset();
    assert!(!s.has_staged());
    assert!(s.instructions().is_empty());
}

#[test]
fn every_spelling_of_a_command_is_known() {
    let table: Vec<(&str, ChatCommand)> = vec![
        ("apply", ChatCommand::Apply),
        (":apply", ChatCommand::Apply),
        ("/apply", ChatCommand::Apply),
        ("diff", ChatCommand::Diff),
        (":diff", ChatCommand::Diff),
        ("/diff", ChatCommand::Diff),
        ("reset", ChatCommand::Reset),
        (":reset", ChatCommand::Reset),
        ("/reset", ChatCommand::Reset),
        ("help", ChatCommand::Help),
        (":help", ChatCommand::Help),
        ("/help", ChatCommand::Help),
        ("?", ChatCommand::Help),
        ("quit", ChatCommand::Quit),
        ("exit", ChatCommand::Quit),
        (":q", ChatCommand::Quit),
        (":exit", ChatCommand::Quit),
        ("/exit", ChatCommand::Quit),
        (":quit", ChatCommand::Quit),
        ("/quit", ChatCommand::Quit),
    ];
    for (line, command) in table {
        assert_eq!(parse_command(line), command, "{}", line);
        assert_eq!(parse_command(&format!("\t {}\u{3000}\r\n", line)), command, "{}", line);
    }
    for line in ["/q", "::exit", ":?", "Apply", "apply now", "apply."] {
        assert_eq!(parse_command(line), ChatCommand::Instruction(line.to_owned()));
    }
    assert_eq!(parse_command(" \t\n"), ChatCommand::Empty);
}

#[test]
fn prompt_is_numbered_line_by_line() {
    let head = "Produce a single NixOS module that satisfies ALL of the following requirements, applied in order:\n";
    let mut s = ChatSession::default();
    assert_eq!(s.session_prompt(), head);
    s.add_instruction("  add fd\n");
    s.add_instruction("drop vim");
    assert_eq!(s.instructions(), ["add fd".to_owned(), "drop vim".to_owned()]);
    assert_eq!(s.session_prompt(), format!("{}1. add fd\n2. drop vim\n", head));
    let before = s.session_prompt();
    s.add_instruction("\n\t");
    assert_eq!(s.session_prompt(), before);
    for i in 3..11 {
        s.add_instruction(&format!("step {}", i));
    }
    assert!(s.session_prompt().ends_with("9. step 9\n10. step 10\n"));
}

#[test]
fn only_white_space_counts_as_nothing_staged() {
    let mut s = ChatSession::new();
    assert_eq!(s.staged(), "");
    s.set_staged(" \n ".to_owned());
    assert!(!s.has_staged());
    assert_eq!(s.staged(), " \n ");
    s.set_staged("{ }".to_owned());
    assert!(s.has_staged());
    s.add_instruction("x");
    assert_eq!(s.staged(), "{ }");
}

#[test]
fn system_context_says_what_is_present() {
    let none = SystemContext::default();
    assert!(!none.root_present());
    assert!(!none.aggregator_present());
    let root = SystemContext { root_config: Some("{ }\n".to_owned()), aggregator: None };
    assert!(root.root_present());
    assert!(!root.aggregator_present());
    let both = SystemContext {
        root_config: Some(String::new()),
        aggregator: Some(String::new()),
    };
    assert!(both.root_present() && both.aggregator_present());
}
