//! Chains: a tree says what was written, in the order and the grouping in which it
//! was written.

use vstd::prelude::*;

use crate::text;
use crate::parser::grammar::{
    ahead, atom_text, atom_words, chain, chain_rest, job_expr, job_rest, left, lemma_atom_words,
    parallel, parallel_op, parallel_rest, peek, pipe_op, pipeline, pipeline_rest, process,
    processes, serial_op, Parsed,
};
use crate::parser::token::{IdKind, SpannedModel, TokenModel};
use crate::pipeline::{ChainModel, JobModel, ParallelOp, PipeOp, SegModel, SerialOp};
use crate::text::Text;

verus! {

/// What stands in a line: words, and the marks between them.
pub enum Sym {
    Word(Text),
    Mark(Text),
}

/// What a token is in a line; parentheses only group.
pub open spec fn symbols(t: TokenModel) -> Seq<Sym> {
    match t {
        TokenModel::Word(w) => seq![Sym::Word(w)],
        TokenModel::IdRef(IdKind::Job, n) => seq![Sym::Word("J"@ + text::decimal(n as nat))],
        TokenModel::IdRef(IdKind::Cron, n) => seq![Sym::Word("C"@ + text::decimal(n as nat))],
        TokenModel::Command(c) => seq![Sym::Word(":"@ + c)],
        TokenModel::SerialThen => seq![Sym::Mark("->"@)],
        TokenModel::SerialAlways => seq![Sym::Mark("~>"@)],
        TokenModel::ParallelAll => seq![Sym::Mark("|||"@)],
        TokenModel::ParallelRace => seq![Sym::Mark("|?|"@)],
        TokenModel::JobAnd => seq![Sym::Mark("&&"@)],
        TokenModel::JobOr => seq![Sym::Mark("||"@)],
        TokenModel::PipeStdout => seq![Sym::Mark("|>"@)],
        TokenModel::PipeAll => seq![Sym::Mark("|&>"@)],
        TokenModel::PipeStderr => seq![Sym::Mark("|!>"@)],
        _ => Seq::empty(),
    }
}

/// The words and marks of the tokens `from..to`.
pub open spec fn line(ts: Seq<SpannedModel>, from: int, to: int) -> Seq<Sym>
    decreases to - from,
{
    if to <= from {
        Seq::empty()
    } else {
        line(ts, from, to - 1) + symbols(ts[to - 1].token)
    }
}

pub open spec fn word_symbols(words: Seq<Text>) -> Seq<Sym> {
    words.map_values(|w: Text| Sym::Word(w))
}

/// A process with its pipe, read from the left to the right.
pub open spec fn process_line(s: SegModel) -> Seq<Sym> {
    word_symbols(s.command) + match s.pipe_to_next {
        Some(PipeOp::Stdout) => seq![Sym::Mark("|>"@)],
        Some(PipeOp::StdoutStderr) => seq![Sym::Mark("|&>"@)],
        Some(PipeOp::StderrOnly) => seq![Sym::Mark("|!>"@)],
        None => Seq::empty(),
    }
}

pub open spec fn pipeline_line(segs: Seq<SegModel>) -> Seq<Sym>
    decreases segs.len(),
{
    if segs.len() == 0 {
        Seq::empty()
    } else {
        pipeline_line(segs.drop_last()) + process_line(segs.last())
    }
}

pub open spec fn job_line(j: JobModel) -> Seq<Sym>
    decreases j,
{
    match j {
        JobModel::Pipeline(segs) => pipeline_line(segs),
        JobModel::And(l, r) => job_line(*l) + seq![Sym::Mark("&&"@)] + job_line(*r),
        JobModel::Or(l, r) => job_line(*l) + seq![Sym::Mark("||"@)] + job_line(*r),
    }
}

/// A tree, read from the left to the right.
pub open spec fn chain_line(c: ChainModel) -> Seq<Sym>
    decreases c,
{
    match c {
        ChainModel::Leaf(j) => job_line(j),
        ChainModel::Serial(SerialOp::Then, l, r) => chain_line(*l) + seq![Sym::Mark("->"@)]
            + chain_line(*r),
        ChainModel::Serial(SerialOp::Always, l, r) => chain_line(*l) + seq![Sym::Mark("~>"@)]
            + chain_line(*r),
        ChainModel::Parallel(ParallelOp::All, l, r) => chain_line(*l) + seq![Sym::Mark("|||"@)]
            + chain_line(*r),
        ChainModel::Parallel(ParallelOp::Race, l, r) => chain_line(*l) + seq![Sym::Mark("|?|"@)]
            + chain_line(*r),
    }
}

// ── What is in a tree ──

proof fn lemma_line_parts(ts: Seq<SpannedModel>, a: int, b: int, c: int)
    requires
        a <= b <= c,
    ensures
        line(ts, a, c) == line(ts, a, b) + line(ts, b, c),
    decreases c - b,
{
    if b < c {
        lemma_line_parts(ts, a, b, c - 1);
        assert(line(ts, a, c) =~= line(ts, a, b) + line(ts, b, c));
    } else {
        assert(line(ts, a, c) =~= line(ts, a, b) + line(ts, b, c));
    }
}

proof fn lemma_line_first(ts: Seq<SpannedModel>, a: int, c: int)
    requires
        a < c,
    ensures
        line(ts, a, c) == symbols(ts[a].token) + line(ts, a + 1, c),
{
    lemma_line_parts(ts, a, a + 1, c);
    assert(line(ts, a, a) =~= Seq::<Sym>::empty());
    assert(line(ts, a, a + 1) =~= symbols(ts[a].token));
}

proof fn lemma_words_line(ts: Seq<SpannedModel>, pos: int, acc: Seq<Text>)
    requires
        0 <= pos <= ts.len(),
    ensures
        ({
            let (words, p) = atom_words(ts, pos, acc);
            &&& pos <= p <= ts.len()
            &&& word_symbols(words) == word_symbols(acc) + line(ts, pos, p)
        }),
    decreases ts.len() - pos,
{
    lemma_atom_words(ts, pos, acc);
    let (words, p) = atom_words(ts, pos, acc);
    match atom_text(peek(ts, pos)) {
        Some(w) => {
            if pos < ts.len() {
                lemma_atom_words(ts, pos + 1, acc.push(w));
                lemma_words_line(ts, pos + 1, acc.push(w));
                lemma_line_first(ts, pos, p);
                assert(symbols(ts[pos].token) =~= seq![Sym::Word(w)]);
                assert(word_symbols(acc.push(w)) =~= word_symbols(acc) + seq![Sym::Word(w)]);
                assert(word_symbols(words) =~= word_symbols(acc) + line(ts, pos, p));
            } else {
                assert(word_symbols(words) =~= word_symbols(acc) + line(ts, pos, p));
            }
        },
        None => {
            assert(word_symbols(words) =~= word_symbols(acc) + line(ts, pos, p));
        },
    }
}

proof fn lemma_process_line(ts: Seq<SpannedModel>, pos: int, len: usize)
    requires
        0 <= pos <= ts.len(),
    ensures
        process(ts, pos, len) matches Ok((words, p)) ==> pos < p <= ts.len() && word_symbols(words)
            == line(ts, pos, p),
{
    lemma_atom_words(ts, pos, Seq::empty());
    lemma_words_line(ts, pos, Seq::empty());
    if let Ok((words, p)) = process(ts, pos, len) {
        assert(word_symbols(Seq::<Text>::empty()) + line(ts, pos, p) =~= line(ts, pos, p));
    }
}

proof fn lemma_pipeline_rest_line(
    ts: Seq<SpannedModel>,
    pos: int,
    len: usize,
    acc: Seq<SegModel>,
    words: Seq<Text>,
)
    requires
        0 <= pos <= ts.len(),
    ensures
        pipeline_rest(ts, pos, len, acc, words) matches Ok((segs, q)) ==> pos <= q <= ts.len()
            && pipeline_line(segs) == pipeline_line(acc) + word_symbols(words) + line(ts, pos, q),
    decreases ts.len() - pos,
{
    match pipe_op(peek(ts, pos)) {
        Some(op) => {
            let seg = SegModel { command: words, pipe_to_next: Some(op) };
            let done = acc.push(seg);
            lemma_process_line(ts, pos + 1, len);
            lemma_atom_words(ts, pos + 1, Seq::empty());
            if let Ok((next, p)) = process(ts, pos + 1, len) {
                lemma_pipeline_rest_line(ts, p, len, done, next);
                if let Ok((segs, q)) = pipeline_rest(ts, p, len, done, next) {
                    assert(done.drop_last() =~= acc);
                    lemma_line_first(ts, pos, q);
                    lemma_line_parts(ts, pos + 1, p, q);
                    assert(process_line(seg) =~= word_symbols(words) + symbols(ts[pos].token));
                    assert(pipeline_line(segs) =~= pipeline_line(acc) + word_symbols(words) + line(
                        ts,
                        pos,
                        q,
                    ));
                }
            }
        },
        None => {
            let seg = SegModel { command: words, pipe_to_next: None };
            assert(acc.push(seg).drop_last() =~= acc);
            assert(pipeline_line(acc.push(seg)) =~= pipeline_line(acc) + word_symbols(words)
                + line(ts, pos, pos));
        },
    }
}

/// The tree says what stands from `pos` on.
pub open spec fn says(ts: Seq<SpannedModel>, pos: int, r: Parsed<ChainModel>) -> bool {
    r matches Ok((c, q)) ==> pos < q <= ts.len() && chain_line(c) == line(ts, pos, q)
}

/// The tree says what stands from `pos` on, behind what `first` says.
pub open spec fn goes_on(
    ts: Seq<SpannedModel>,
    pos: int,
    first: ChainModel,
    r: Parsed<ChainModel>,
) -> bool {
    r matches Ok((c, q)) ==> pos <= q <= ts.len() && chain_line(c) == chain_line(first) + line(
        ts,
        pos,
        q,
    )
}

proof fn lemma_pipeline_says(ts: Seq<SpannedModel>, pos: int, len: usize)
    requires
        0 <= pos <= ts.len(),
    ensures
        says(ts, pos, pipeline(ts, pos, len)),
    decreases left(ts, pos), 0int,
{
    if peek(ts, pos) is GroupOpen && pos < ts.len() {
        lemma_chain_says(ts, pos + 1, len);
        if let Ok((inner, p)) = chain(ts, pos + 1, len) {
            if peek(ts, p) is GroupClose {
                lemma_line_first(ts, pos, p + 1);
                assert(line(ts, pos, p + 1) =~= line(ts, pos + 1, p));
            }
        }
    } else {
        lemma_process_line(ts, pos, len);
        if let Ok((words, p)) = process(ts, pos, len) {
            lemma_pipeline_rest_line(ts, p, len, Seq::empty(), words);
            if let Ok((segs, q)) = processes(ts, pos, len) {
                lemma_line_parts(ts, pos, p, q);
                assert(pipeline_line(segs) =~= line(ts, pos, q));
            }
        }
    }
}

proof fn lemma_job_rest_says(ts: Seq<SpannedModel>, pos: int, len: usize, first: ChainModel)
    requires
        0 <= pos <= ts.len(),
    ensures
        goes_on(ts, pos, first, job_rest(ts, pos, len, first)),
    decreases left(ts, pos), 1int,
{
    let t = peek(ts, pos);
    if (t is JobAnd || t is JobOr) && pos < ts.len() {
        lemma_pipeline_says(ts, pos + 1, len);
        if let ChainModel::Leaf(l) = first {
            if let Ok((ChainModel::Leaf(r), p)) = pipeline(ts, pos + 1, len) {
                let both = if t is JobAnd {
                    JobModel::And(Box::new(l), Box::new(r))
                } else {
                    JobModel::Or(Box::new(l), Box::new(r))
                };
                assert(chain_line(ChainModel::Leaf(r)) == job_line(r));
                assert(job_line(both) =~= job_line(l) + symbols(t) + job_line(r));
                lemma_job_rest_says(ts, ahead(ts, pos, p), len, ChainModel::Leaf(both));
                if let Ok((c, q)) = job_rest(ts, p, len, ChainModel::Leaf(both)) {
                    lemma_line_first(ts, pos, q);
                    lemma_line_parts(ts, pos + 1, p, q);
                    assert(chain_line(c) =~= chain_line(first) + line(ts, pos, q));
                }
            }
        }
    } else {
        assert(chain_line(first) =~= chain_line(first) + line(ts, pos, pos));
    }
}

proof fn lemma_job_says(ts: Seq<SpannedModel>, pos: int, len: usize)
    requires
        0 <= pos <= ts.len(),
    ensures
        says(ts, pos, job_expr(ts, pos, len)),
    decreases left(ts, pos), 2int,
{
    lemma_pipeline_says(ts, pos, len);
    if let Ok((first, p)) = pipeline(ts, pos, len) {
        lemma_job_rest_says(ts, ahead(ts, pos, p), len, first);
        if let Ok((c, q)) = job_expr(ts, pos, len) {
            lemma_line_parts(ts, pos, p, q);
        }
    }
}

proof fn lemma_parallel_rest_says(ts: Seq<SpannedModel>, pos: int, len: usize, first: ChainModel)
    requires
        0 <= pos <= ts.len(),
    ensures
        goes_on(ts, pos, first, parallel_rest(ts, pos, len, first)),
    decreases left(ts, pos), 3int,
{
    match parallel_op(peek(ts, pos)) {
        Some(op) => {
            lemma_job_says(ts, pos + 1, len);
            if let Ok((next, p)) = job_expr(ts, pos + 1, len) {
                let both = ChainModel::Parallel(op, Box::new(first), Box::new(next));
                assert(chain_line(both) =~= chain_line(first) + symbols(ts[pos].token)
                    + chain_line(next));
                lemma_parallel_rest_says(ts, ahead(ts, pos, p), len, both);
                if let Ok((c, q)) = parallel_rest(ts, p, len, both) {
                    lemma_line_first(ts, pos, q);
                    lemma_line_parts(ts, pos + 1, p, q);
                    assert(chain_line(c) =~= chain_line(first) + line(ts, pos, q));
                }
            }
        },
        None => {
            assert(chain_line(first) =~= chain_line(first) + line(ts, pos, pos));
        },
    }
}

proof fn lemma_parallel_says(ts: Seq<SpannedModel>, pos: int, len: usize)
    requires
        0 <= pos <= ts.len(),
    ensures
        says(ts, pos, parallel(ts, pos, len)),
    decreases left(ts, pos), 4int,
{
    lemma_job_says(ts, pos, len);
    if let Ok((first, p)) = job_expr(ts, pos, len) {
        lemma_parallel_rest_says(ts, ahead(ts, pos, p), len, first);
        if let Ok((c, q)) = parallel(ts, pos, len) {
            lemma_line_parts(ts, pos, p, q);
        }
    }
}

proof fn lemma_chain_rest_says(ts: Seq<SpannedModel>, pos: int, len: usize, first: ChainModel)
    requires
        0 <= pos <= ts.len(),
    ensures
        goes_on(ts, pos, first, chain_rest(ts, pos, len, first)),
    decreases left(ts, pos), 5int,
{
    match serial_op(peek(ts, pos)) {
        Some(op) => {
            lemma_parallel_says(ts, pos + 1, len);
            if let Ok((next, p)) = parallel(ts, pos + 1, len) {
                let both = ChainModel::Serial(op, Box::new(first), Box::new(next));
                assert(chain_line(both) =~= chain_line(first) + symbols(ts[pos].token)
                    + chain_line(next));
                lemma_chain_rest_says(ts, ahead(ts, pos, p), len, both);
                if let Ok((c, q)) = chain_rest(ts, p, len, both) {
                    lemma_line_first(ts, pos, q);
                    lemma_line_parts(ts, pos + 1, p, q);
                    assert(chain_line(c) =~= chain_line(first) + line(ts, pos, q));
                }
            }
        },
        None => {
            assert(chain_line(first) =~= chain_line(first) + line(ts, pos, pos));
        },
    }
}

/// A chain that is parsed says just what was written: read from the left to the
/// right, it has the words and the marks of the tokens it was made of, each mark where
/// it was written, in the same order.
pub proof fn lemma_chain_says(ts: Seq<SpannedModel>, pos: int, len: usize)
    requires
        0 <= pos <= ts.len(),
    ensures
        chain(ts, pos, len) matches Ok((c, q)) ==> pos < q <= ts.len() && chain_line(c) == line(
            ts,
            pos,
            q,
        ),
    decreases left(ts, pos), 6int,
{
    lemma_parallel_says(ts, pos, len);
    if let Ok((first, p)) = parallel(ts, pos, len) {
        lemma_chain_rest_says(ts, ahead(ts, pos, p), len, first);
        if let Ok((c, q)) = chain(ts, pos, len) {
            lemma_line_parts(ts, pos, p, q);
        }
    }
}

} // verus!
