use eggshell::editor::{Editor, Key};
use eggshell::history::History;

fn chars(s: &str) -> Vec<char> {
    s.chars().collect()
}

fn type_str(e: &mut Editor, s: &str) {
    for c in s.chars() {
        let done = e.step(Key::Printable { c, shift: false });
        assert!(!done);
    }
}

#[test]
fn printable_keys_concatenate() {
    let h = History::new();
    let mut e = Editor::new(&h);
    type_str(&mut e, "echo hi");
    let done = e.step(Key::Enter);
    assert!(done);
    assert_eq!(e.submit(), chars("echo hi"));
}

#[test]
fn shift_upper_cases_ascii_letters() {
    let h = History::new();
    let mut e = Editor::new(&h);
    e.step(Key::Printable { c: 'a', shift: true });
    e.step(Key::Printable { c: '1', shift: true });
    e.step(Key::Printable { c: 'b', shift: false });
    assert_eq!(e.submit(), chars("A1b"));
}

#[test]
fn backspace_at_start_is_noop() {
    let h = History::new();
    let mut e = Editor::new(&h);
    type_str(&mut e, "ab");
    e.step(Key::Left);
    e.step(Key::Left);
    assert_eq!(e.cursor, 0);
    e.step(Key::Backspace);
    assert_eq!(e.cursor, 0);
    assert_eq!(e.submit(), chars("ab"));
}

#[test]
fn backspace_removes_before_cursor() {
    let h = History::new();
    let mut e = Editor::new(&h);
    type_str(&mut e, "abc");
    e.step(Key::Left);
    e.step(Key::Backspace);
    assert_eq!(e.submit(), chars("ac"));
}

#[test]
fn cursor_stays_within_bounds() {
    let h = History::new();
    let mut e = Editor::new(&h);
    type_str(&mut e, "hi");
    e.step(Key::Right);
    e.step(Key::Right);
    assert_eq!(e.cursor, 2);
    e.step(Key::Left);
    e.step(Key::Left);
    e.step(Key::Left);
    assert_eq!(e.cursor, 0);
}

#[test]
fn insertion_at_cursor_position() {
    let h = History::new();
    let mut e = Editor::new(&h);
    type_str(&mut e, "ac");
    e.step(Key::Left);
    e.step(Key::Printable { c: 'b', shift: false });
    assert_eq!(e.submit(), chars("abc"));
}

#[test]
fn up_recalls_most_recent_line() {
    let mut h = History::new();
    h.append(chars("first"));
    h.append(chars("second"));
    let mut e = Editor::new(&h);
    e.step(Key::Up);
    assert_eq!(e.buffer, chars("second"));
    assert_eq!(e.cursor, 6);
    e.step(Key::Up);
    assert_eq!(e.buffer, chars("first"));
    e.step(Key::Up);
    assert_eq!(e.buffer, chars("first"));
}

#[test]
fn up_then_down_restores_live_buffer() {
    let mut h = History::new();
    h.append(chars("one"));
    h.append(chars("two"));
    let mut e = Editor::new(&h);
    type_str(&mut e, "draft");
    e.step(Key::Up);
    e.step(Key::Up);
    e.step(Key::Down);
    e.step(Key::Down);
    assert_eq!(e.submit(), chars("draft"));
}

#[test]
fn down_at_live_buffer_is_noop() {
    let mut h = History::new();
    h.append(chars("old"));
    let mut e = Editor::new(&h);
    type_str(&mut e, "new");
    e.step(Key::Down);
    assert_eq!(e.submit(), chars("new"));
}

#[test]
fn typing_resets_recall_to_live() {
    let mut h = History::new();
    h.append(chars("aaa"));
    let mut e = Editor::new(&h);
    e.step(Key::Up);
    assert_eq!(e.buffer, chars("aaa"));
    e.step(Key::Printable { c: '!', shift: false });
    e.step(Key::Down);
    assert_eq!(e.submit(), chars("aaa!"));
}

#[test]
fn escape_also_submits() {
    let h = History::new();
    let mut e = Editor::new(&h);
    type_str(&mut e, "x");
    let done = e.step(Key::Escape);
    assert!(done);
}

#[test]
fn other_keys_are_ignored() {
    let h = History::new();
    let mut e = Editor::new(&h);
    type_str(&mut e, "keep");
    let done = e.step(Key::Other);
    assert!(!done);
    assert_eq!(e.cursor, 4);
    assert_eq!(e.submit(), chars("keep"));
}

#[test]
fn history_appends_in_order() {
    let mut h = History::new();
    assert_eq!(h.len(), 0);
    h.append(chars("a"));
    h.append(chars("a"));
    h.append(chars("b"));
    assert_eq!(h.len(), 3);
    assert_eq!(h.snapshot(), vec![chars("a"), chars("a"), chars("b")]);
}
