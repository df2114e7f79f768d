//! The raw-mode line editor's state machine.
//!
//! The editor owns an edit buffer, a cursor, and a recall scratch array: a
//! copy of the history lines plus one trailing slot for the line being typed,
//! indexed by a recall cursor.  Every key event maps to a pure transition,
//! [`step_model`]; the executable [`Editor::step`] is proved to follow it
//! exactly.  Reading keys from the terminal and redrawing the line are left
//! to the caller, which only performs what the transition decided.

use vstd::prelude::*;
use crate::chars::{shift_up, shifted_char, copy_chars};
use crate::history::History;

verus! {

/// One decoded key event from the terminal.
#[derive(Clone, Copy)]
pub enum Key {
    /// A printable character; `shift` records whether the shift modifier
    /// was held, in which case an ASCII letter is upper-cased.
    Printable { c: char, shift: bool },
    Backspace,
    Left,
    Right,
    Up,
    Down,
    Enter,
    Escape,
    /// Any other key; ignored.
    Other,
}

/// The character a printable key inserts.
pub open spec fn key_char(c: char, shift: bool) -> char {
    if shift {
        shift_up(c)
    } else {
        c
    }
}

/// Whether a key finishes the editing session.
pub open spec fn submits(k: Key) -> bool {
    k is Enter || k is Escape
}

/// The mathematical state of the editor.
///
/// `scratch` always has one entry per history line plus a trailing slot for
/// the live buffer; `recall == scratch.len() - 1` means the live buffer is
/// being edited, a smaller value that a history line is displayed.
#[verifier::ext_equal]
pub ghost struct EditorModel {
    pub buffer: Seq<char>,
    pub cursor: int,
    pub scratch: Seq<Seq<char>>,
    pub recall: int,
}

/// The number of history lines the scratch array was built from.
pub open spec fn hist_len(m: EditorModel) -> int {
    m.scratch.len() - 1
}

/// Well-formedness: the cursor is a valid insertion point and the recall
/// cursor stays within the scratch array.
pub open spec fn model_wf(m: EditorModel) -> bool {
    &&& 0 <= m.cursor <= m.buffer.len()
    &&& m.scratch.len() >= 1
    &&& 0 <= m.recall <= hist_len(m)
}

/// The transition one key event makes on the editor's state.
pub open spec fn step_model(m: EditorModel, k: Key) -> EditorModel {
    match k {
        Key::Printable { c, shift } => EditorModel {
            buffer: m.buffer.insert(m.cursor, key_char(c, shift)),
            cursor: m.cursor + 1,
            recall: hist_len(m),
            ..m
        },
        Key::Backspace => if m.cursor > 0 {
            EditorModel { buffer: m.buffer.remove(m.cursor - 1), cursor: m.cursor - 1, ..m }
        } else {
            m
        },
        Key::Left => if m.cursor > 0 {
            EditorModel { cursor: m.cursor - 1, ..m }
        } else {
            m
        },
        Key::Right => if m.cursor < m.buffer.len() {
            EditorModel { cursor: m.cursor + 1, ..m }
        } else {
            m
        },
        Key::Up => if m.recall > 0 {
            let snapped = if m.recall == hist_len(m) {
                m.scratch.update(m.recall, m.buffer)
            } else {
                m.scratch
            };
            EditorModel {
                buffer: snapped[m.recall - 1],
                cursor: snapped[m.recall - 1].len() as int,
                scratch: snapped,
                recall: m.recall - 1,
            }
        } else {
            m
        },
        Key::Down => if m.recall < hist_len(m) {
            EditorModel {
                buffer: m.scratch[m.recall + 1],
                cursor: m.scratch[m.recall + 1].len() as int,
                recall: m.recall + 1,
                ..m
            }
        } else {
            m
        },
        Key::Enter => m,
        Key::Escape => m,
        Key::Other => m,
    }
}

/// The executable editor state for one invocation.
pub struct Editor {
    pub buffer: Vec<char>,
    pub cursor: usize,
    pub scratch: Vec<Vec<char>>,
    pub recall: usize,
}

impl View for Editor {
    type V = EditorModel;

    open spec fn view(&self) -> EditorModel {
        EditorModel {
            buffer: self.buffer@,
            cursor: self.cursor as int,
            scratch: self.scratch.deep_view(),
            recall: self.recall as int,
        }
    }
}

impl Editor {
    pub open spec fn wf(&self) -> bool {
        model_wf(self@)
    }

    /// A fresh editor over a snapshot of the history: empty buffer, cursor
    /// at the start, recall cursor on the live slot.
    pub fn new(history: &History) -> (e: Editor)
        ensures
            e.wf(),
            e@.buffer == Seq::<char>::empty(),
            e@.cursor == 0,
            e@.scratch == history@.push(Seq::<char>::empty()),
            e@.recall == history@.len(),
    {
        let mut scratch = history.snapshot();
        let n = scratch.len();
        scratch.push(Vec::new());
        let e = Editor { buffer: Vec::new(), cursor: 0, scratch, recall: n };
        proof {
            assert(e@.scratch =~~= history@.push(Seq::<char>::empty()));
        }
        e
    }

    /// Applies one key event; returns whether the line was submitted.
    pub fn step(&mut self, k: Key) -> (done: bool)
        requires
            old(self).wf(),
        ensures
            final(self).wf(),
            final(self)@ == step_model(old(self)@, k),
            done == submits(k),
    {
        match k {
            Key::Printable { c, shift } => {
                let ch = if shift {
                    shifted_char(c)
                } else {
                    c
                };
                self.recall = self.scratch.len() - 1;
                self.buffer.insert(self.cursor, ch);
                let n = self.buffer.len();
                proof {
                    assert(self.cursor < n);
                }
                self.cursor = self.cursor + 1;
                proof {
                    assert(self@ =~~= step_model(old(self)@, k));
                }
                false
            },
            Key::Backspace => {
                if self.cursor > 0 {
                    self.cursor = self.cursor - 1;
                    self.buffer.remove(self.cursor);
                }
                proof {
                    assert(self@ =~~= step_model(old(self)@, k));
                }
                false
            },
            Key::Left => {
                if self.cursor > 0 {
                    self.cursor = self.cursor - 1;
                }
                proof {
                    assert(self@ =~~= step_model(old(self)@, k));
                }
                false
            },
            Key::Right => {
                if self.cursor < self.buffer.len() {
                    self.cursor = self.cursor + 1;
                }
                proof {
                    assert(self@ =~~= step_model(old(self)@, k));
                }
                false
            },
            Key::Up => {
                if self.recall > 0 {
                    if self.recall == self.scratch.len() - 1 {
                        let snap = copy_chars(&self.buffer);
                        self.scratch.set(self.recall, snap);
                    }
                    self.recall = self.recall - 1;
                    let line = copy_chars(&self.scratch[self.recall]);
                    self.cursor = line.len();
                    self.buffer = line;
                }
                proof {
                    assert(self@ =~~= step_model(old(self)@, k));
                }
                false
            },
            Key::Down => {
                if self.recall < self.scratch.len() - 1 {
                    self.recall = self.recall + 1;
                    let line = copy_chars(&self.scratch[self.recall]);
                    self.cursor = line.len();
                    self.buffer = line;
                }
                proof {
                    assert(self@ =~~= step_model(old(self)@, k));
                }
                false
            },
            Key::Enter => true,
            Key::Escape => true,
            Key::Other => false,
        }
    }

    /// Hands the finished line back once editing is over.
    pub fn submit(self) -> (line: Vec<char>)
        ensures
            line@ == self@.buffer,
    {
        self.buffer
    }
}

/// The state after a whole sequence of key events, applied left to right.
pub open spec fn run_model(m: EditorModel, ks: Seq<Key>) -> EditorModel
    decreases ks.len(),
{
    if ks.len() == 0 {
        m
    } else {
        step_model(run_model(m, ks.drop_last()), ks.last())
    }
}

/// Every key of the sequence is a printable character.
pub open spec fn all_printable(ks: Seq<Key>) -> bool {
    forall|i: int| 0 <= i < ks.len() ==> ks[i] is Printable
}

/// The characters a sequence of printable keys inserts, in order.
pub open spec fn chars_of(ks: Seq<Key>) -> Seq<char> {
    Seq::new(ks.len(), |i: int| key_char(ks[i]->c, ks[i]->shift))
}

/// Printable keys only append: starting with the cursor at the end of the
/// buffer, a sequence of printable keys leaves the old buffer followed by
/// exactly the characters typed, with the cursor again at the end and the
/// scratch array untouched.
pub proof fn lemma_printable_keys_append(m: EditorModel, ks: Seq<Key>)
    requires
        m.cursor == m.buffer.len(),
        all_printable(ks),
    ensures
        run_model(m, ks).buffer == m.buffer + chars_of(ks),
        run_model(m, ks).cursor == run_model(m, ks).buffer.len(),
        run_model(m, ks).scratch == m.scratch,
    decreases ks.len(),
{
    if ks.len() == 0 {
        assert(m.buffer + chars_of(ks) =~= m.buffer);
    } else {
        let pre = ks.drop_last();
        let last = ks.last();
        assert(all_printable(pre));
        lemma_printable_keys_append(m, pre);
        let mid = run_model(m, pre);
        assert(last is Printable);
        let ch = key_char(last->c, last->shift);
        assert(mid.buffer.insert(mid.cursor, ch) =~= mid.buffer.push(ch));
        assert(chars_of(ks) =~= chars_of(pre).push(ch));
        assert(run_model(m, ks).buffer =~= m.buffer + chars_of(ks));
    }
}

/// Submitting after typing only printable characters into a fresh line
/// yields exactly their concatenation.
pub proof fn lemma_printable_line(m: EditorModel, ks: Seq<Key>)
    requires
        m.buffer.len() == 0,
        m.cursor == 0,
        all_printable(ks),
    ensures
        run_model(m, ks).buffer == chars_of(ks),
{
    lemma_printable_keys_append(m, ks);
    assert(m.buffer + chars_of(ks) =~= chars_of(ks));
}

/// Backspace with the cursor at the start of the line changes nothing.
pub proof fn lemma_backspace_at_zero(m: EditorModel)
    requires
        m.cursor == 0,
    ensures
        step_model(m, Key::Backspace) == m,
{
}

/// No key moves the cursor out of the buffer; in particular Left and Right
/// keep it within bounds and leave the buffer itself alone.
pub proof fn lemma_cursor_stays_in_bounds(m: EditorModel, k: Key)
    requires
        model_wf(m),
    ensures
        model_wf(step_model(m, k)),
        0 <= step_model(m, k).cursor <= step_model(m, k).buffer.len(),
        k is Left || k is Right ==> step_model(m, k).buffer == m.buffer,
{
}

/// The same key, `n` times over.
pub open spec fn repeat_key(k: Key, n: int) -> Seq<Key> {
    Seq::new(n as nat, |i: int| k)
}

/// The editor state while a history line is recalled: the buffer shows the
/// scratch entry the recall cursor points at, with the cursor at its end.
pub open spec fn recall_state(scratch: Seq<Seq<char>>, r: int) -> EditorModel {
    EditorModel {
        buffer: scratch[r],
        cursor: scratch[r].len() as int,
        scratch,
        recall: r,
    }
}

/// Running a concatenation of key sequences runs one after the other.
pub proof fn lemma_run_concat(m: EditorModel, a: Seq<Key>, b: Seq<Key>)
    ensures
        run_model(m, a + b) == run_model(run_model(m, a), b),
    decreases b.len(),
{
    if b.len() == 0 {
        assert(a + b =~= a);
    } else {
        lemma_run_concat(m, a, b.drop_last());
        assert((a + b).drop_last() =~= a + b.drop_last());
        assert((a + b).last() == b.last());
    }
}

/// One Up from a recalled line moves the recall cursor one line back.
pub proof fn lemma_up_step(s: Seq<Seq<char>>, r: int)
    requires
        1 <= r <= s.len() - 1,
    ensures
        step_model(recall_state(s, r), Key::Up) == recall_state(s, r - 1),
{
    assert(s.update(r, s[r]) =~= s);
    assert(step_model(recall_state(s, r), Key::Up) =~~= recall_state(s, r - 1));
}

/// One Down from a recalled line moves the recall cursor one line forward.
pub proof fn lemma_down_step(s: Seq<Seq<char>>, r: int)
    requires
        0 <= r < s.len() - 1,
    ensures
        step_model(recall_state(s, r), Key::Down) == recall_state(s, r + 1),
{
    assert(step_model(recall_state(s, r), Key::Down) =~~= recall_state(s, r + 1));
}

/// `j` Ups from a recalled line walk the recall cursor `j` lines back.
pub proof fn lemma_ups(s: Seq<Seq<char>>, r: int, j: int)
    requires
        0 <= j <= r <= s.len() - 1,
    ensures
        run_model(recall_state(s, r), repeat_key(Key::Up, j)) == recall_state(s, r - j),
    decreases j,
{
    if j == 0 {
        assert(repeat_key(Key::Up, 0) =~= Seq::<Key>::empty());
    } else {
        assert(repeat_key(Key::Up, j).drop_last() =~= repeat_key(Key::Up, j - 1));
        assert(repeat_key(Key::Up, j).last() == Key::Up);
        lemma_ups(s, r, j - 1);
        lemma_up_step(s, r - (j - 1));
    }
}

/// `j` Downs from a recalled line walk the recall cursor `j` lines forward.
pub proof fn lemma_downs(s: Seq<Seq<char>>, r: int, j: int)
    requires
        0 <= r,
        0 <= j,
        r + j <= s.len() - 1,
    ensures
        run_model(recall_state(s, r), repeat_key(Key::Down, j)) == recall_state(s, r + j),
    decreases j,
{
    if j == 0 {
        assert(repeat_key(Key::Down, 0) =~= Seq::<Key>::empty());
    } else {
        assert(repeat_key(Key::Down, j).drop_last() =~= repeat_key(Key::Down, j - 1));
        assert(repeat_key(Key::Down, j).last() == Key::Down);
        lemma_downs(s, r, j - 1);
        lemma_down_step(s, r + (j - 1));
    }
}

/// Recall round trip: while editing the live line, pressing Up `k` times and
/// then Down `k` times (for any `k` up to the number of history lines)
/// brings the buffer back to what it was before the first Up.
pub proof fn lemma_recall_round_trip(m: EditorModel, k: int)
    requires
        model_wf(m),
        m.recall == hist_len(m),
        0 <= k <= hist_len(m),
    ensures
        run_model(m, repeat_key(Key::Up, k) + repeat_key(Key::Down, k)).buffer == m.buffer,
{
    let ups = repeat_key(Key::Up, k);
    let downs = repeat_key(Key::Down, k);
    lemma_run_concat(m, ups, downs);
    if k == 0 {
        assert(ups + downs =~= Seq::<Key>::empty());
    } else {
        let hl = hist_len(m);
        let s1 = m.scratch.update(hl, m.buffer);
        assert(step_model(m, Key::Up) =~~= recall_state(s1, hl - 1));
        assert(ups =~= seq![Key::Up] + repeat_key(Key::Up, k - 1));
        lemma_run_concat(m, seq![Key::Up], repeat_key(Key::Up, k - 1));
        assert(seq![Key::Up].drop_last() =~= Seq::<Key>::empty());
        assert(seq![Key::Up].last() == Key::Up);
        assert(run_model(m, Seq::<Key>::empty()) == m);
        assert(run_model(m, seq![Key::Up]) == step_model(m, Key::Up));
        lemma_ups(s1, hl - 1, k - 1);
        assert(run_model(m, ups) == recall_state(s1, hl - k));
        lemma_downs(s1, hl - k, k);
        assert(run_model(m, ups + downs) == recall_state(s1, hl));
        assert(recall_state(s1, hl).buffer == m.buffer);
    }
}

} // verus!
