//! The pipeline parser: an input line split on `|` into stages, each stage
//! split on runs of whitespace into tokens.  No quoting, no escaping.

use vstd::prelude::*;
use vstd::string::StrSliceExecFns;
use crate::chars::{is_space, space};
use crate::pipeline::{Pipeline, Stage};

verus! {

broadcast use crate::chars::lemma_char_vec_deep_view;

/// The segments of a line split on the literal `|` character.  A line with
/// no `|` is one segment; every `|` opens a new, possibly empty one, so
/// there is always at least one segment.
pub open spec fn split_segments(s: Seq<char>) -> Seq<Seq<char>>
    decreases s.len(),
{
    if s.len() == 0 {
        seq![Seq::<char>::empty()]
    } else {
        let pre = split_segments(s.drop_last());
        let c = s.last();
        if c == '|' {
            pre.push(Seq::<char>::empty())
        } else {
            pre.update(pre.len() - 1, pre.last().push(c))
        }
    }
}

/// A segment's tokens: the maximal runs of non-whitespace characters, in
/// order.  A blank segment has no tokens.
pub open spec fn tokens_of(s: Seq<char>) -> Seq<Seq<char>>
    decreases s.len(),
{
    if s.len() == 0 {
        Seq::<Seq<char>>::empty()
    } else {
        let pre = tokens_of(s.drop_last());
        let c = s.last();
        if is_space(c) {
            pre
        } else if s.len() >= 2 && !is_space(s[s.len() - 2]) {
            pre.update(pre.len() - 1, pre.last().push(c))
        } else {
            pre.push(seq![c])
        }
    }
}

/// What parsing a whole line yields: the tokens of each `|`-separated
/// segment, one stage per segment.
pub open spec fn parse_spec(line: Seq<char>) -> Seq<Seq<Seq<char>>> {
    split_segments(line).map_values(|seg: Seq<char>| tokens_of(seg))
}

/// The tokens of one segment, by a single left-to-right pass.
fn tokenize(seg: &Vec<char>) -> (toks: Vec<Vec<char>>)
    ensures
        toks.deep_view() == tokens_of(seg@),
{
    let mut toks: Vec<Vec<char>> = Vec::new();
    let mut cur: Vec<char> = Vec::new();
    let mut in_tok: bool = false;
    let mut i: usize = 0;
    proof {
        assert(seg@.subrange(0, 0) =~= Seq::<char>::empty());
    }
    while i < seg.len()
        invariant
            i <= seg@.len(),
            seg@.len() == seg.len(),
            in_tok <==> i > 0 && !is_space(seg@[i - 1]),
            in_tok ==> toks.deep_view().push(cur@) == tokens_of(seg@.subrange(0, i as int))
                && cur@.len() > 0,
            !in_tok ==> toks.deep_view() == tokens_of(seg@.subrange(0, i as int)) && cur@.len()
                == 0,
        decreases seg.len() - i,
    {
        let c = seg[i];
        proof {
            let pre = seg@.subrange(0, i as int);
            let ext = seg@.subrange(0, i + 1 as int);
            assert(ext.drop_last() =~= pre);
            assert(ext.last() == seg@[i as int]);
        }
        if space(c) {
            if in_tok {
                toks.push(cur);
                cur = Vec::new();
                in_tok = false;
            }
        } else {
            cur.push(c);
            if in_tok {
                proof {
                    let ext = seg@.subrange(0, i + 1 as int);
                    assert(tokens_of(ext) =~~= toks.deep_view().push(cur@));
                }
            } else {
                in_tok = true;
                proof {
                    let ext = seg@.subrange(0, i + 1 as int);
                    assert(cur@ =~= seq![seg@[i as int]]);
                    assert(tokens_of(ext) =~~= toks.deep_view().push(cur@));
                }
            }
        }
        i = i + 1;
    }
    proof {
        assert(seg@.subrange(0, seg@.len() as int) =~= seg@);
    }
    if in_tok {
        toks.push(cur);
    }
    toks
}

/// Splits the line on `|`, collecting the characters of each segment.
fn split_pipes(line: &Vec<char>) -> (segs: Vec<Vec<char>>)
    ensures
        segs.deep_view() == split_segments(line@),
        segs.len() >= 1,
{
    let mut done: Vec<Vec<char>> = Vec::new();
    let mut cur: Vec<char> = Vec::new();
    let mut i: usize = 0;
    proof {
        assert(line@.subrange(0, 0) =~= Seq::<char>::empty());
        assert(done.deep_view().push(cur@) =~~= split_segments(line@.subrange(0, 0)));
    }
    while i < line.len()
        invariant
            i <= line@.len(),
            line@.len() == line.len(),
            done.deep_view().push(cur@) == split_segments(line@.subrange(0, i as int)),
        decreases line.len() - i,
    {
        let c = line[i];
        proof {
            let pre = line@.subrange(0, i as int);
            let ext = line@.subrange(0, i + 1 as int);
            assert(ext.drop_last() =~= pre);
            assert(ext.last() == line@[i as int]);
        }
        if c == '|' {
            done.push(cur);
            cur = Vec::new();
            proof {
                let ext = line@.subrange(0, i + 1 as int);
                assert(done.deep_view().push(cur@) =~~= split_segments(ext));
            }
        } else {
            cur.push(c);
            proof {
                let ext = line@.subrange(0, i + 1 as int);
                assert(done.deep_view().push(cur@) =~~= split_segments(ext));
            }
        }
        i = i + 1;
    }
    proof {
        assert(line@.subrange(0, line@.len() as int) =~= line@);
    }
    done.push(cur);
    done
}

/// Parses an input line held as characters into a pipeline.
pub fn parse_chars(line: &Vec<char>) -> (p: Pipeline)
    ensures
        p@ == parse_spec(line@),
        p@.len() >= 1,
{
    let segs = split_pipes(line);
    let mut stages: Vec<Stage> = Vec::new();
    let mut i: usize = 0;
    while i < segs.len()
        invariant
            i <= segs.len(),
            segs.deep_view() == split_segments(line@),
            segs.len() == split_segments(line@).len(),
            stages@.len() == i,
            forall|j: int| 0 <= j < i ==> stages@[j]@ == tokens_of(split_segments(line@)[j]),
        decreases segs.len() - i,
    {
        let toks = tokenize(&segs[i]);
        proof {
            assert(segs@[i as int].deep_view() == split_segments(line@)[i as int]);
        }
        stages.push(Stage { tokens: toks });
        i = i + 1;
    }
    let p = Pipeline { stages };
    proof {
        assert(p@ =~~= parse_spec(line@));
    }
    p
}

/// Parses an input line into a pipeline of stages.
pub fn parse(line: &str) -> (p: Pipeline)
    ensures
        p@ == parse_spec(line@),
        p@.len() >= 1,
{
    let n = line.unicode_len();
    let mut cs: Vec<char> = Vec::new();
    let mut i: usize = 0;
    while i < n
        invariant
            i <= n,
            n == line@.len(),
            cs@ == line@.subrange(0, i as int),
        decreases n - i,
    {
        cs.push(line.get_char(i));
        proof {
            assert(line@.subrange(0, i + 1 as int) =~= line@.subrange(0, i as int).push(
                line@[i as int],
            ));
        }
        i = i + 1;
    }
    proof {
        assert(cs@ =~= line@);
    }
    parse_chars(&cs)
}

/// A line without any `|` is one single segment: itself.
pub proof fn lemma_split_no_pipe(s: Seq<char>)
    requires
        forall|i: int| 0 <= i < s.len() ==> s[i] != '|',
    ensures
        split_segments(s) == seq![s],
    decreases s.len(),
{
    if s.len() == 0 {
        assert(split_segments(s) =~~= seq![s]);
    } else {
        assert(forall|i: int| 0 <= i < s.drop_last().len() ==> s.drop_last()[i] != '|');
        lemma_split_no_pipe(s.drop_last());
        assert(s.last() != '|');
        assert(s.drop_last().push(s.last()) =~= s);
        assert(split_segments(s) =~~= seq![s]);
    }
}

/// A line of nothing but whitespace parses to a single stage with no
/// tokens: the pipeline is a no-op and nothing is spawned for it.
pub proof fn lemma_blank_line_parses_to_noop(s: Seq<char>)
    requires
        forall|i: int| 0 <= i < s.len() ==> is_space(s[i]),
    ensures
        parse_spec(s).len() == 1,
        parse_spec(s)[0].len() == 0,
{
    assert(forall|i: int| 0 <= i < s.len() ==> s[i] != '|');
    lemma_split_no_pipe(s);
    lemma_blank_tokens(s);
}

/// A segment of nothing but whitespace has no tokens.
proof fn lemma_blank_tokens(s: Seq<char>)
    requires
        forall|i: int| 0 <= i < s.len() ==> is_space(s[i]),
    ensures
        tokens_of(s).len() == 0,
    decreases s.len(),
{
    if s.len() > 0 {
        assert(forall|i: int| 0 <= i < s.drop_last().len() ==> is_space(s.drop_last()[i]));
        lemma_blank_tokens(s.drop_last());
    }
}

} // verus!
