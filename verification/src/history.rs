//! The session's command history: an append-only, insertion-ordered sequence
//! of previously submitted lines, each kept as a sequence of characters.

use vstd::prelude::*;
use crate::chars::copy_lines;

verus! {

/// The history store.  Lines are only ever appended; recall navigation works
/// on a per-invocation snapshot, never on the store itself.
pub struct History {
    pub lines: Vec<Vec<char>>,
}

impl View for History {
    type V = Seq<Seq<char>>;

    open spec fn view(&self) -> Seq<Seq<char>> {
        self.lines.deep_view()
    }
}

impl History {
    /// An empty history, as at the start of a session.
    pub fn new() -> (h: History)
        ensures
            h@ == Seq::<Seq<char>>::empty(),
    {
        let h = History { lines: Vec::new() };
        proof {
            assert(h@ =~~= Seq::<Seq<char>>::empty());
        }
        h
    }

    /// How many lines have been submitted so far.
    pub fn len(&self) -> (n: usize)
        ensures
            n == self@.len(),
    {
        self.lines.len()
    }

    /// Appends a submitted line at the end; nothing is deduplicated and
    /// nothing is ever dropped.
    pub fn append(&mut self, line: Vec<char>)
        ensures
            final(self)@ == old(self)@.push(line@),
    {
        self.lines.push(line);
        proof {
            assert(self@ =~~= old(self)@.push(line@));
        }
    }

    /// A fresh copy of all lines, oldest first, for building the line
    /// editor's recall scratch array.
    pub fn snapshot(&self) -> (r: Vec<Vec<char>>)
        ensures
            r.deep_view() == self@,
    {
        copy_lines(&self.lines)
    }
}

} // verus!
