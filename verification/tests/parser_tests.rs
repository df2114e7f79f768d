use eggshell::parser::parse;

fn chars(s: &str) -> Vec<char> {
    s.chars().collect()
}

#[test]
fn three_stage_pipeline() {
    let p = parse("ls -la | grep foo | wc -l");
    assert_eq!(p.stages.len(), 3);
    assert_eq!(p.stages[0].tokens, vec![chars("ls"), chars("-la")]);
    assert_eq!(p.stages[1].tokens, vec![chars("grep"), chars("foo")]);
    assert_eq!(p.stages[2].tokens, vec![chars("wc"), chars("-l")]);
}

#[test]
fn empty_line_is_single_empty_stage() {
    let p = parse("");
    assert_eq!(p.stages.len(), 1);
    assert_eq!(p.stages[0].tokens.len(), 0);
    assert!(p.is_noop());
}

#[test]
fn blank_line_is_single_empty_stage() {
    let p = parse("   ");
    assert_eq!(p.stages.len(), 1);
    assert_eq!(p.stages[0].tokens.len(), 0);
    assert!(p.is_noop());
}

#[test]
fn single_command_no_pipe() {
    let p = parse("echo hello world");
    assert_eq!(p.stages.len(), 1);
    assert_eq!(
        p.stages[0].tokens,
        vec![chars("echo"), chars("hello"), chars("world")]
    );
    assert!(!p.is_noop());
}

#[test]
fn whitespace_runs_collapse() {
    let p = parse("  grep   foo\tbar  ");
    assert_eq!(p.stages.len(), 1);
    assert_eq!(
        p.stages[0].tokens,
        vec![chars("grep"), chars("foo"), chars("bar")]
    );
}

#[test]
fn interior_empty_stage_is_kept_empty() {
    let p = parse("a | | b");
    assert_eq!(p.stages.len(), 3);
    assert_eq!(p.stages[0].tokens, vec![chars("a")]);
    assert_eq!(p.stages[1].tokens.len(), 0);
    assert_eq!(p.stages[2].tokens, vec![chars("b")]);
}

#[test]
fn pipe_without_spaces() {
    let p = parse("echo hi|wc -c");
    assert_eq!(p.stages.len(), 2);
    assert_eq!(p.stages[0].tokens, vec![chars("echo"), chars("hi")]);
    assert_eq!(p.stages[1].tokens, vec![chars("wc"), chars("-c")]);
}

#[test]
fn trailing_pipe_opens_empty_stage() {
    let p = parse("ls |");
    assert_eq!(p.stages.len(), 2);
    assert_eq!(p.stages[0].tokens, vec![chars("ls")]);
    assert_eq!(p.stages[1].tokens.len(), 0);
}
