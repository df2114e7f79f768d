use eggshell::parser::parse;
use eggshell::pipeline::{stage_wiring, Command, Stage, StdinWiring, StdoutWiring};

fn chars(s: &str) -> Vec<char> {
    s.chars().collect()
}

fn stage(words: &[&str]) -> Stage {
    Stage {
        tokens: words.iter().map(|w| chars(w)).collect(),
    }
}

#[test]
fn empty_stage_classifies_as_empty() {
    let c = stage(&[]).classify();
    assert!(matches!(c, Command::Empty));
}

#[test]
fn exit_classifies_as_exit() {
    assert!(matches!(stage(&["exit"]).classify(), Command::Exit));
    assert!(matches!(stage(&["eggxit"]).classify(), Command::Exit));
    assert!(matches!(
        stage(&["exit", "now"]).classify(),
        Command::Exit
    ));
}

#[test]
fn exit_first_stage_wins_over_rest_of_pipeline() {
    let p = parse("exit | cat");
    assert_eq!(p.stages.len(), 2);
    assert!(matches!(p.stages[0].classify(), Command::Exit));
}

#[test]
fn cd_takes_its_argument() {
    match stage(&["cd", "/tmp"]).classify() {
        Command::ChangeDir { path } => assert_eq!(path, chars("/tmp")),
        _ => panic!("expected a directory change"),
    }
}

#[test]
fn cd_without_argument_defaults_to_root() {
    match stage(&["cd"]).classify() {
        Command::ChangeDir { path } => assert_eq!(path, chars("/")),
        _ => panic!("expected a directory change"),
    }
}

#[test]
fn echo_joins_arguments_with_single_spaces() {
    match stage(&["echo", "hello", "world"]).classify() {
        Command::Echo { message } => assert_eq!(message, chars("hello world\n")),
        _ => panic!("expected an echo"),
    }
}

#[test]
fn echo_without_arguments_writes_bare_newline() {
    match stage(&["echo"]).classify() {
        Command::Echo { message } => assert_eq!(message, chars("\n")),
        _ => panic!("expected an echo"),
    }
}

#[test]
fn echo_message_survives_parsing_whitespace() {
    let p = parse("echo   hello    world | wc -w");
    match p.stages[0].classify() {
        Command::Echo { message } => assert_eq!(message, chars("hello world\n")),
        _ => panic!("expected an echo"),
    }
}

#[test]
fn unknown_program_is_external() {
    assert!(matches!(
        stage(&["definitely-not-a-program"]).classify(),
        Command::External
    ));
    assert!(matches!(stage(&["ls", "-la"]).classify(), Command::External));
}

#[test]
fn builtin_names_must_match_exactly() {
    assert!(matches!(stage(&["exitt"]).classify(), Command::External));
    assert!(matches!(stage(&["Echo"]).classify(), Command::External));
    assert!(matches!(stage(&["c"]).classify(), Command::External));
}

#[test]
fn single_stage_inherits_both_ends() {
    let (i, o) = stage_wiring(0, 1);
    assert_eq!(i, StdinWiring::InheritTerminal);
    assert_eq!(o, StdoutWiring::InheritTerminal);
}

#[test]
fn middle_stages_are_piped_on_both_sides() {
    let (i0, o0) = stage_wiring(0, 3);
    let (i1, o1) = stage_wiring(1, 3);
    let (i2, o2) = stage_wiring(2, 3);
    assert_eq!(i0, StdinWiring::InheritTerminal);
    assert_eq!(o0, StdoutWiring::PipeToNextStage);
    assert_eq!(i1, StdinWiring::FromPreviousStage);
    assert_eq!(o1, StdoutWiring::PipeToNextStage);
    assert_eq!(i2, StdinWiring::FromPreviousStage);
    assert_eq!(o2, StdoutWiring::InheritTerminal);
}
