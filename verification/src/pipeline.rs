//! Pipelines, stages, and the execution engine's per-stage decisions.
//!
//! A pipeline is an ordered sequence of stages; a stage an ordered sequence
//! of tokens, the first naming the program.  The engine's decisions are pure:
//! which builtin (if any) a stage names, what the `echo` builtin writes, and
//! how each stage's stdio is wired.  Spawning processes, creating OS pipes
//! and waiting on children is left to the caller, which performs exactly
//! what was decided here.

use vstd::prelude::*;

verus! {

broadcast use crate::chars::lemma_char_vec_deep_view;

/// One command of a pipeline: its whitespace-separated tokens, the first
/// being the program name, the rest its arguments.
pub struct Stage {
    pub tokens: Vec<Vec<char>>,
}

impl View for Stage {
    type V = Seq<Seq<char>>;

    open spec fn view(&self) -> Seq<Seq<char>> {
        self.tokens.deep_view()
    }
}

/// An ordered sequence of stages whose stdio are chained through pipes.
pub struct Pipeline {
    pub stages: Vec<Stage>,
}

impl View for Pipeline {
    type V = Seq<Seq<Seq<char>>>;

    open spec fn view(&self) -> Seq<Seq<Seq<char>>> {
        Seq::new(self.stages@.len(), |i: int| self.stages@[i]@)
    }
}

/// The name of the exit builtin.
pub open spec fn exit_word() -> Seq<char> {
    seq!['e', 'x', 'i', 't']
}

/// The alternate name of the exit builtin.
pub open spec fn eggxit_word() -> Seq<char> {
    seq!['e', 'g', 'g', 'x', 'i', 't']
}

/// The name of the change-directory builtin.
pub open spec fn cd_word() -> Seq<char> {
    seq!['c', 'd']
}

/// The name of the echo builtin.
pub open spec fn echo_word() -> Seq<char> {
    seq!['e', 'c', 'h', 'o']
}

/// Whether a token names the exit builtin under either of its names.
pub open spec fn is_exit_name(t: Seq<char>) -> bool {
    t == exit_word() || t == eggxit_word()
}

/// The directory the change-directory builtin moves to: its first argument,
/// or the root directory when none is given.
pub open spec fn cd_target(ts: Seq<Seq<char>>) -> Seq<char> {
    if ts.len() >= 2 {
        ts[1]
    } else {
        seq!['/']
    }
}

/// The arguments joined by single spaces.
pub open spec fn joined(args: Seq<Seq<char>>) -> Seq<char>
    decreases args.len(),
{
    if args.len() == 0 {
        Seq::<char>::empty()
    } else if args.len() == 1 {
        args[0]
    } else {
        joined(args.drop_last()) + seq![' '] + args.last()
    }
}

/// What the echo builtin writes: its arguments joined by single spaces,
/// followed by one newline.
pub open spec fn echo_message(ts: Seq<Seq<char>>) -> Seq<char> {
    joined(ts.skip(1)) + seq!['\n']
}

/// What the engine does with one stage, resolved once by name lookup.
pub enum Command {
    /// A stage with no tokens at all: nothing to run.
    Empty,
    /// The whole shell terminates at once; no further stage runs.
    Exit,
    /// The shell's own working directory changes, in-process.
    ChangeDir { path: Vec<char> },
    /// `message` is written into the stage's stdout destination.
    Echo { message: Vec<char> },
    /// An external program is spawned.
    External,
}

/// Whether a token holds exactly the given word.
fn is_word(t: &Vec<char>, w: &[char]) -> (r: bool)
    ensures
        r == (t@ == w@),
{
    if t.len() != w.len() {
        proof {
            assert(t@ != w@);
        }
        return false;
    }
    let mut i: usize = 0;
    while i < t.len()
        invariant
            i <= t.len(),
            t@.len() == w@.len(),
            forall|j: int| 0 <= j < i ==> t@[j] == w@[j],
        decreases t.len() - i,
    {
        if t[i] != w[i] {
            proof {
                assert(t@[i as int] != w@[i as int]);
            }
            return false;
        }
        i = i + 1;
    }
    proof {
        assert(t@ =~= w@);
    }
    true
}

/// A fresh vector holding the echo builtin's output for this stage: the
/// arguments joined by single spaces, with a trailing newline.
pub fn echo_message_of(stage: &Stage) -> (msg: Vec<char>)
    requires
        stage@.len() >= 1,
    ensures
        msg@ == echo_message(stage@),
{
    let mut msg: Vec<char> = Vec::new();
    let mut i: usize = 1;
    proof {
        assert(stage@.skip(1).take(0) =~= Seq::<Seq<char>>::empty());
    }
    while i < stage.tokens.len()
        invariant
            1 <= i <= stage@.len(),
            stage@.len() == stage.tokens@.len(),
            forall|j: int| 0 <= j < stage@.len() ==> stage@[j] == stage.tokens@[j]@,
            msg@ == joined(stage@.skip(1).take(i - 1)),
        decreases stage.tokens.len() - i,
    {
        if i > 1 {
            msg.push(' ');
        }
        let tok = &stage.tokens[i];
        let mut j: usize = 0;
        let ghost mid = msg@;
        while j < tok.len()
            invariant
                j <= tok@.len(),
                msg@ == mid + tok@.subrange(0, j as int),
            decreases tok.len() - j,
        {
            msg.push(tok[j]);
            proof {
                assert(mid + tok@.subrange(0, j + 1 as int) =~= (mid + tok@.subrange(
                    0,
                    j as int,
                )).push(tok@[j as int]));
            }
            j = j + 1;
        }
        proof {
            let pre = stage@.skip(1).take(i - 1);
            let now = stage@.skip(1).take(i as int);
            assert(tok@.subrange(0, tok@.len() as int) =~= tok@);
            assert(now.drop_last() =~= pre);
            assert(now.last() == stage@[i as int]);
            if i == 1 {
                assert(joined(now) == stage@[1]);
                assert(msg@ =~= joined(now));
            } else {
                assert(joined(now) == joined(pre) + seq![' '] + stage@[i as int]);
                assert(msg@ =~= joined(now));
            }
        }
        i = i + 1;
    }
    msg.push('\n');
    proof {
        assert(stage@.skip(1).take(stage@.len() - 1) =~= stage@.skip(1));
        assert(msg@ =~= echo_message(stage@));
    }
    msg
}

impl Stage {
    /// Resolves this stage's name against the builtins, as the engine does
    /// once per stage before anything is spawned.
    pub fn classify(&self) -> (c: Command)
        ensures
            c is Empty <==> self@.len() == 0,
            c is Exit <==> self@.len() > 0 && is_exit_name(self@[0]),
            c is ChangeDir <==> self@.len() > 0 && self@[0] == cd_word(),
            c matches Command::ChangeDir { path } ==> path@ == cd_target(self@),
            c is Echo <==> self@.len() > 0 && self@[0] == echo_word(),
            c matches Command::Echo { message } ==> message@ == echo_message(self@),
            c is External <==> self@.len() > 0 && !is_exit_name(self@[0]) && self@[0] != cd_word()
                && self@[0] != echo_word(),
    {
        if self.tokens.len() == 0 {
            return Command::Empty;
        }
        let name = &self.tokens[0];
        if is_word(name, ['e', 'x', 'i', 't'].as_slice()) || is_word(
            name,
            ['e', 'g', 'g', 'x', 'i', 't'].as_slice(),
        ) {
            return Command::Exit;
        }
        if is_word(name, ['c', 'd'].as_slice()) {
            let path = if self.tokens.len() >= 2 {
                crate::chars::copy_chars(&self.tokens[1])
            } else {
                let mut root: Vec<char> = Vec::new();
                root.push('/');
                proof {
                    assert(root@ =~= seq!['/']);
                }
                root
            };
            return Command::ChangeDir { path };
        }
        if is_word(name, ['e', 'c', 'h', 'o'].as_slice()) {
            let message = echo_message_of(self);
            return Command::Echo { message };
        }
        Command::External
    }
}

/// Where a stage's stdin comes from.
#[derive(Clone, Copy, PartialEq, Eq, Structural, Debug)]
pub enum StdinWiring {
    /// The terminal's own stdin, for the first stage.
    InheritTerminal,
    /// The read end of the pipe fed by the previous stage.
    FromPreviousStage,
}

/// Where a stage's stdout goes.
#[derive(Clone, Copy, PartialEq, Eq, Structural, Debug)]
pub enum StdoutWiring {
    /// The terminal's own stdout, for the last stage.
    InheritTerminal,
    /// The write end of a fresh pipe read by the next stage.
    PipeToNextStage,
}

/// The stdio wiring of stage `i` of `n`: the first stage reads the
/// terminal's stdin and every later one the previous stage's pipe; the last
/// stage writes the terminal's stdout and every earlier one a fresh pipe.
/// Stderr is always inherited from the terminal, uniformly.
pub fn stage_wiring(i: usize, n: usize) -> (w: (StdinWiring, StdoutWiring))
    requires
        i < n,
    ensures
        w.0 is FromPreviousStage <==> i > 0,
        w.1 is PipeToNextStage <==> i + 1 < n,
{
    let stdin = if i > 0 {
        StdinWiring::FromPreviousStage
    } else {
        StdinWiring::InheritTerminal
    };
    let stdout = if i + 1 < n {
        StdoutWiring::PipeToNextStage
    } else {
        StdoutWiring::InheritTerminal
    };
    (stdin, stdout)
}

impl Pipeline {
    /// Whether this pipeline runs nothing at all: an empty or blank input
    /// line parses to a single stage with no tokens, and the engine only
    /// redisplays the prompt for it.
    pub fn is_noop(&self) -> (r: bool)
        ensures
            r <==> (self@.len() == 0 || self@[0].len() == 0),
    {
        self.stages.len() == 0 || self.stages[0].tokens.len() == 0
    }

    /// How many stages the pipeline has.
    pub fn len(&self) -> (n: usize)
        ensures
            n == self@.len(),
    {
        self.stages.len()
    }
}

} // verus!
