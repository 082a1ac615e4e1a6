//! How chains are grouped: by their operators, and by parentheses.

use vstd::prelude::*;

use crate::parser::error::ErrModel;
use crate::parser::grammar::{
    atom_words, chain, chain_piped, chain_rest, job_expr, job_piped, job_rest, left,
    lemma_atom_words, lemma_chain_sound, parallel, parallel_op, parallel_rest, peek, pipe_op,
    piped, pipeline, pipeline_rest, process, processes, serial_op, Parsed,
};
use crate::parser::token::{SpannedModel, TokenModel};
use crate::pipeline::{ChainModel, JobModel, ParallelOp, PipeOp, SegModel, SerialOp};
use crate::text::Text;

verus! {

// ── Without parentheses ──

/// No parenthesis opens among the tokens `from..to`.
pub open spec fn ungrouped(ts: Seq<SpannedModel>, from: int, to: int) -> bool {
    forall|i: int| from <= i < to ==> !((#[trigger] ts[i]).token is GroupOpen)
}

/// `&&` and `||` join to the left.
pub open spec fn job_leans(j: JobModel) -> bool
    decreases j,
{
    match j {
        JobModel::Pipeline(_) => true,
        JobModel::And(l, r) => job_leans(*l) && *r is Pipeline,
        JobModel::Or(l, r) => job_leans(*l) && *r is Pipeline,
    }
}

/// What stands beside `|||` or `|?|`: they bind less than `&&` and `||`, and join to
/// the left.
pub open spec fn branch_leans(c: ChainModel) -> bool
    decreases c,
{
    match c {
        ChainModel::Leaf(j) => job_leans(j),
        ChainModel::Parallel(_, l, r) => branch_leans(*l) && (*r matches ChainModel::Leaf(j)
            && job_leans(j)),
        ChainModel::Serial(..) => false,
    }
}

/// `->` and `~>` bind least, and join to the left.
pub open spec fn chain_leans(c: ChainModel) -> bool
    decreases c,
{
    match c {
        ChainModel::Serial(_, l, r) => chain_leans(*l) && branch_leans(*r),
        _ => branch_leans(c),
    }
}

/// Within bounds, and a leaf whose joins lean if nothing is grouped.
pub open spec fn pipeline_shape(ts: Seq<SpannedModel>, pos: int, r: Parsed<ChainModel>) -> bool {
    r matches Ok((c, q)) ==> pos < q <= ts.len() && (ungrouped(ts, pos, q) ==> (
    c matches ChainModel::Leaf(j) && j is Pipeline))
}

pub open spec fn job_shape(ts: Seq<SpannedModel>, pos: int, r: Parsed<ChainModel>) -> bool {
    r matches Ok((c, q)) ==> pos < q <= ts.len() && (ungrouped(ts, pos, q) ==> (
    c matches ChainModel::Leaf(j) && job_leans(j)))
}

pub open spec fn branch_shape(ts: Seq<SpannedModel>, pos: int, r: Parsed<ChainModel>) -> bool {
    r matches Ok((c, q)) ==> pos < q <= ts.len() && (ungrouped(ts, pos, q) ==> branch_leans(c))
}

proof fn lemma_pipeline_rest_bounds(
    ts: Seq<SpannedModel>,
    pos: int,
    len: usize,
    acc: Seq<SegModel>,
    words: Seq<Text>,
)
    requires
        0 <= pos <= ts.len(),
    ensures
        pipeline_rest(ts, pos, len, acc, words) matches Ok((segs, q)) ==> pos <= q <= ts.len(),
    decreases ts.len() - pos,
{
    if let Some(op) = pipe_op(peek(ts, pos)) {
        lemma_atom_words(ts, pos + 1, Seq::empty());
        let done = acc.push(SegModel { command: words, pipe_to_next: Some(op) });
        if let Ok((next, p)) = process(ts, pos + 1, len) {
            lemma_pipeline_rest_bounds(ts, p, len, done, next);
        }
    }
}

proof fn lemma_pipeline_shape(ts: Seq<SpannedModel>, pos: int, len: usize)
    requires
        0 <= pos <= ts.len(),
    ensures
        pipeline_shape(ts, pos, pipeline(ts, pos, len)),
{
    if peek(ts, pos) is GroupOpen && pos < ts.len() {
        lemma_chain_sound(ts, pos + 1, len);
        assert(ts[pos].token is GroupOpen);
    } else {
        lemma_atom_words(ts, pos, Seq::empty());
        if let Ok((words, p)) = process(ts, pos, len) {
            lemma_pipeline_rest_bounds(ts, p, len, Seq::empty(), words);
        }
    }
}

proof fn lemma_job_rest_shape(ts: Seq<SpannedModel>, pos: int, len: usize, first: ChainModel)
    requires
        0 <= pos <= ts.len(),
    ensures
        job_rest(ts, pos, len, first) matches Ok((c, q)) ==> pos <= q <= ts.len() && ((ungrouped(
            ts,
            pos,
            q,
        ) && (first matches ChainModel::Leaf(j) && job_leans(j))) ==> (c matches ChainModel::Leaf(
            j,
        ) && job_leans(j))),
    decreases left(ts, pos),
{
    let t = peek(ts, pos);
    if (t is JobAnd || t is JobOr) && pos < ts.len() {
        lemma_pipeline_shape(ts, pos + 1, len);
        if let ChainModel::Leaf(l) = first {
            if let Ok((ChainModel::Leaf(r), p)) = pipeline(ts, pos + 1, len) {
                let both = if t is JobAnd {
                    JobModel::And(Box::new(l), Box::new(r))
                } else {
                    JobModel::Or(Box::new(l), Box::new(r))
                };
                lemma_job_rest_shape(ts, p, len, ChainModel::Leaf(both));
                if let Ok((c, q)) = job_rest(ts, p, len, ChainModel::Leaf(both)) {
                    if ungrouped(ts, pos, q) {
                        assert(ungrouped(ts, pos + 1, p));
                        assert(ungrouped(ts, p, q));
                        assert(job_leans(l) ==> job_leans(both));
                    }
                }
            }
        }
    }
}

proof fn lemma_job_shape(ts: Seq<SpannedModel>, pos: int, len: usize)
    requires
        0 <= pos <= ts.len(),
    ensures
        job_shape(ts, pos, job_expr(ts, pos, len)),
{
    lemma_pipeline_shape(ts, pos, len);
    if let Ok((first, p)) = pipeline(ts, pos, len) {
        lemma_job_rest_shape(ts, p, len, first);
        if let Ok((c, q)) = job_expr(ts, pos, len) {
            if ungrouped(ts, pos, q) {
                assert(ungrouped(ts, pos, p));
                assert(ungrouped(ts, p, q));
            }
        }
    }
}

proof fn lemma_parallel_rest_shape(ts: Seq<SpannedModel>, pos: int, len: usize, first: ChainModel)
    requires
        0 <= pos <= ts.len(),
    ensures
        parallel_rest(ts, pos, len, first) matches Ok((c, q)) ==> pos <= q <= ts.len() && ((
        ungrouped(ts, pos, q) && branch_leans(first)) ==> branch_leans(c)),
    decreases left(ts, pos),
{
    if let Some(op) = parallel_op(peek(ts, pos)) {
        lemma_job_shape(ts, pos + 1, len);
        if let Ok((next, p)) = job_expr(ts, pos + 1, len) {
            let both = ChainModel::Parallel(op, Box::new(first), Box::new(next));
            lemma_parallel_rest_shape(ts, p, len, both);
            if let Ok((c, q)) = parallel_rest(ts, p, len, both) {
                if ungrouped(ts, pos, q) {
                    assert(ungrouped(ts, pos + 1, p));
                    assert(ungrouped(ts, p, q));
                    assert(branch_leans(first) ==> branch_leans(both));
                }
            }
        }
    }
}

proof fn lemma_branch_shape(ts: Seq<SpannedModel>, pos: int, len: usize)
    requires
        0 <= pos <= ts.len(),
    ensures
        branch_shape(ts, pos, parallel(ts, pos, len)),
{
    lemma_job_shape(ts, pos, len);
    if let Ok((first, p)) = job_expr(ts, pos, len) {
        lemma_parallel_rest_shape(ts, p, len, first);
        if let Ok((c, q)) = parallel(ts, pos, len) {
            if ungrouped(ts, pos, q) {
                assert(ungrouped(ts, pos, p));
                assert(ungrouped(ts, p, q));
            }
        }
    }
}

proof fn lemma_chain_rest_shape(ts: Seq<SpannedModel>, pos: int, len: usize, first: ChainModel)
    requires
        0 <= pos <= ts.len(),
    ensures
        chain_rest(ts, pos, len, first) matches Ok((c, q)) ==> pos <= q <= ts.len() && ((ungrouped(
            ts,
            pos,
            q,
        ) && chain_leans(first)) ==> chain_leans(c)),
    decreases left(ts, pos),
{
    if let Some(op) = serial_op(peek(ts, pos)) {
        lemma_branch_shape(ts, pos + 1, len);
        if let Ok((next, p)) = parallel(ts, pos + 1, len) {
            let both = ChainModel::Serial(op, Box::new(first), Box::new(next));
            lemma_chain_rest_shape(ts, p, len, both);
            if let Ok((c, q)) = chain_rest(ts, p, len, both) {
                if ungrouped(ts, pos, q) {
                    assert(ungrouped(ts, pos + 1, p));
                    assert(ungrouped(ts, p, q));
                    assert(chain_leans(first) ==> chain_leans(both));
                }
            }
        }
    }
}

/// Where no parentheses group, `->` and `~>` bind least, then `|||` and `|?|`, then
/// `&&` and `||`, and pipes most; operators that bind alike join to the left.
pub proof fn lemma_operators_bind(ts: Seq<SpannedModel>, pos: int, len: usize)
    requires
        0 <= pos <= ts.len(),
    ensures
        chain(ts, pos, len) matches Ok((c, q)) ==> (ungrouped(ts, pos, q) ==> chain_leans(c)),
{
    lemma_branch_shape(ts, pos, len);
    if let Ok((first, p)) = parallel(ts, pos, len) {
        lemma_chain_rest_shape(ts, p, len, first);
        if let Ok((c, q)) = chain(ts, pos, len) {
            if ungrouped(ts, pos, q) {
                assert(ungrouped(ts, pos, p));
                assert(ungrouped(ts, p, q));
                assert(chain_leans(first));
            }
        }
    }
}

// ── With parentheses ──

pub open spec fn word_tokens(words: Seq<Text>) -> Seq<TokenModel> {
    words.map_values(|w: Text| TokenModel::Word(w))
}

pub open spec fn pipe_tokens(op: Option<PipeOp>) -> Seq<TokenModel> {
    match op {
        Some(PipeOp::Stdout) => seq![TokenModel::PipeStdout],
        Some(PipeOp::StdoutStderr) => seq![TokenModel::PipeAll],
        Some(PipeOp::StderrOnly) => seq![TokenModel::PipeStderr],
        None => Seq::empty(),
    }
}

/// The processes from `k` on, with their pipes.
pub open spec fn pipeline_tokens(segs: Seq<SegModel>, k: int) -> Seq<TokenModel>
    decreases segs.len() - k,
{
    if !(0 <= k < segs.len()) {
        Seq::empty()
    } else {
        word_tokens(segs[k].command) + pipe_tokens(segs[k].pipe_to_next) + pipeline_tokens(
            segs,
            k + 1,
        )
    }
}

/// Two things in parentheses with an operator between them.
pub open spec fn joined(l: Seq<TokenModel>, op: TokenModel, r: Seq<TokenModel>) -> Seq<TokenModel> {
    seq![TokenModel::GroupOpen] + l + seq![TokenModel::GroupClose, op, TokenModel::GroupOpen] + r
        + seq![TokenModel::GroupClose]
}

/// A job with parentheses around all that `&&` and `||` join.
pub open spec fn job_tokens(j: JobModel) -> Seq<TokenModel>
    decreases j,
{
    match j {
        JobModel::Pipeline(segs) => pipeline_tokens(segs, 0),
        JobModel::And(l, r) => joined(job_tokens(*l), TokenModel::JobAnd, job_tokens(*r)),
        JobModel::Or(l, r) => joined(job_tokens(*l), TokenModel::JobOr, job_tokens(*r)),
    }
}

/// A chain with parentheses around all that an operator joins.
pub open spec fn chain_tokens(c: ChainModel) -> Seq<TokenModel>
    decreases c,
{
    match c {
        ChainModel::Leaf(j) => job_tokens(j),
        ChainModel::Serial(SerialOp::Then, l, r) => joined(
            chain_tokens(*l),
            TokenModel::SerialThen,
            chain_tokens(*r),
        ),
        ChainModel::Serial(SerialOp::Always, l, r) => joined(
            chain_tokens(*l),
            TokenModel::SerialAlways,
            chain_tokens(*r),
        ),
        ChainModel::Parallel(ParallelOp::All, l, r) => joined(
            chain_tokens(*l),
            TokenModel::ParallelAll,
            chain_tokens(*r),
        ),
        ChainModel::Parallel(ParallelOp::Race, l, r) => joined(
            chain_tokens(*l),
            TokenModel::ParallelRace,
            chain_tokens(*r),
        ),
    }
}

/// The tokens stand from `pos` on.
pub open spec fn stand(ts: Seq<SpannedModel>, pos: int, toks: Seq<TokenModel>) -> bool {
    &&& 0 <= pos && pos + toks.len() <= ts.len()
    &&& forall|i: int| 0 <= i < toks.len() ==> (#[trigger] ts[pos + i]).token == toks[i]
}

proof fn lemma_stand_parts(ts: Seq<SpannedModel>, pos: int, a: Seq<TokenModel>, b: Seq<TokenModel>)
    requires
        stand(ts, pos, a + b),
    ensures
        stand(ts, pos, a),
        stand(ts, pos + a.len(), b),
{
    let whole = a + b;
    assert forall|i: int| 0 <= i < a.len() implies (#[trigger] ts[pos + i]).token == a[i] by {
        assert(whole[i] == a[i]);
    }
    assert forall|i: int| 0 <= i < b.len() implies (#[trigger] ts[pos + a.len() + i]).token
        == b[i] by {
        assert(whole[a.len() + i] == b[i]);
        assert(ts[pos + (a.len() + i)].token == whole[a.len() + i]);
    }
}

/// Nothing that goes on with a chain stands at `q`.
pub open spec fn ends_at(ts: Seq<SpannedModel>, q: int) -> bool {
    peek(ts, q) is GroupClose || peek(ts, q) is Eof
}

proof fn lemma_words_read(
    ts: Seq<SpannedModel>,
    pos: int,
    words: Seq<Text>,
    k: int,
    acc: Seq<Text>,
)
    requires
        stand(ts, pos, word_tokens(words)),
        0 <= k <= words.len(),
        crate::parser::grammar::atom_text(peek(ts, pos + words.len())) is None,
    ensures
        atom_words(ts, pos + k, acc) == (acc + words.skip(k), pos + words.len()),
    decreases words.len() - k,
{
    if k < words.len() {
        assert(ts[pos + k].token == word_tokens(words)[k]);
        assert(peek(ts, pos + k) == TokenModel::Word(words[k]));
        lemma_words_read(ts, pos, words, k + 1, acc.push(words[k]));
        assert(acc.push(words[k]) + words.skip(k + 1) =~= acc + words.skip(k));
    } else {
        assert(acc + words.skip(k) =~= acc);
    }
}

/// What stands behind the words of a process is no word.
proof fn lemma_behind_words(ts: Seq<SpannedModel>, pos: int, segs: Seq<SegModel>, k: int)
    requires
        stand(ts, pos, pipeline_tokens(segs, k)),
        0 <= k < segs.len(),
        piped(segs),
        ends_at(ts, pos + pipeline_tokens(segs, k).len()),
    ensures
        ({
            let words = segs[k].command;
            let p = pos + words.len();
            &&& stand(ts, pos, word_tokens(words))
            &&& pipe_op(peek(ts, p)) == segs[k].pipe_to_next
            &&& crate::parser::grammar::atom_text(peek(ts, p)) is None
            &&& segs[k].pipe_to_next is Some ==> p < ts.len() && stand(
                ts,
                p + 1,
                pipeline_tokens(segs, k + 1),
            )
            &&& segs[k].pipe_to_next is None ==> k == segs.len() - 1 && p == pos
                + pipeline_tokens(segs, k).len()
            &&& segs[k].pipe_to_next is Some ==> k < segs.len() - 1 && p + 1 + pipeline_tokens(
                segs,
                k + 1,
            ).len() == pos + pipeline_tokens(segs, k).len()
        }),
{
    let words = segs[k].command;
    let pipe = pipe_tokens(segs[k].pipe_to_next);
    let rest = pipeline_tokens(segs, k + 1);
    lemma_stand_parts(ts, pos, word_tokens(words) + pipe, rest);
    lemma_stand_parts(ts, pos, word_tokens(words), pipe);
    if segs[k].pipe_to_next is Some {
        assert(ts[pos + words.len() + 0].token == pipe[0]);
    } else {
        assert(rest =~= Seq::<TokenModel>::empty());
    }
}

proof fn lemma_pipeline_read(
    ts: Seq<SpannedModel>,
    pos: int,
    len: usize,
    segs: Seq<SegModel>,
    k: int,
)
    requires
        stand(ts, pos, pipeline_tokens(segs, k)),
        0 <= k < segs.len(),
        piped(segs),
        ends_at(ts, pos + pipeline_tokens(segs, k).len()),
    ensures
        process(ts, pos, len) == Ok::<(Seq<Text>, int), ErrModel>(
            (segs[k].command, pos + segs[k].command.len()),
        ),
        !(peek(ts, pos) is GroupOpen),
        pipeline_rest(ts, pos + segs[k].command.len(), len, segs.take(k), segs[k].command) == Ok::<
            (Seq<SegModel>, int),
            ErrModel,
        >((segs, pos + pipeline_tokens(segs, k).len())),
    decreases segs.len() - k,
{
    let words = segs[k].command;
    let p = pos + words.len();
    lemma_behind_words(ts, pos, segs, k);
    lemma_words_read(ts, pos, words, 0, Seq::empty());
    assert(Seq::<Text>::empty() + words.skip(0) =~= words);
    assert(ts[pos + 0].token == word_tokens(words)[0]);
    assert(pos + 0 == pos);
    assert(segs.take(k).push(segs[k]) =~= segs.take(k + 1));
    if segs[k].pipe_to_next is Some {
        lemma_pipeline_read(ts, p + 1, len, segs, k + 1);
    } else {
        assert(segs.take(k + 1) =~= segs);
    }
}

/// What stands in parentheses is read as what is in them.
proof fn lemma_group_read(
    ts: Seq<SpannedModel>,
    pos: int,
    len: usize,
    toks: Seq<TokenModel>,
    c: ChainModel,
)
    requires
        stand(ts, pos, seq![TokenModel::GroupOpen] + toks + seq![TokenModel::GroupClose]),
        chain(ts, pos + 1, len) == Ok::<(ChainModel, int), ErrModel>((c, pos + 1 + toks.len())),
        pipe_op(peek(ts, pos + toks.len() + 2)) is None,
    ensures
        pipeline(ts, pos, len) == Ok::<(ChainModel, int), ErrModel>((c, pos + toks.len() + 2)),
{
    let open = seq![TokenModel::GroupOpen];
    let close = seq![TokenModel::GroupClose];
    lemma_stand_parts(ts, pos, open + toks, close);
    lemma_stand_parts(ts, pos, open, toks);
    assert(ts[pos + 0].token == open[0]);
    assert(ts[pos + (open + toks).len() + 0].token == close[0]);
    assert(peek(ts, pos) is GroupOpen);
    assert(peek(ts, pos + 1 + toks.len()) is GroupClose);
}

proof fn lemma_joined(ts: Seq<SpannedModel>, pos: int, l: Seq<TokenModel>, op: TokenModel, r: Seq<
    TokenModel,
>)
    requires
        stand(ts, pos, joined(l, op, r)),
    ensures
        ({
            let open = seq![TokenModel::GroupOpen];
            let close = seq![TokenModel::GroupClose];
            let at = pos + l.len() + 2;
            &&& joined(l, op, r).len() == l.len() + r.len() + 5
            &&& stand(ts, pos, open + l + close)
            &&& stand(ts, pos + 1, l)
            &&& peek(ts, pos + 1 + l.len()) is GroupClose
            &&& peek(ts, at) == op && at < ts.len()
            &&& stand(ts, at + 1, open + r + close)
            &&& stand(ts, at + 2, r)
            &&& peek(ts, at + 2 + r.len()) is GroupClose
        }),
{
    let open = seq![TokenModel::GroupOpen];
    let close = seq![TokenModel::GroupClose];
    let at = pos + l.len() + 2;
    let left = open + l + close;
    let right = open + r + close;
    assert(joined(l, op, r) =~= left + (seq![op] + right));
    lemma_stand_parts(ts, pos, left, seq![op] + right);
    lemma_stand_parts(ts, at, seq![op], right);
    lemma_stand_parts(ts, pos, open + l, close);
    lemma_stand_parts(ts, pos, open, l);
    lemma_stand_parts(ts, at + 1, open + r, close);
    lemma_stand_parts(ts, at + 1, open, r);
    assert(ts[at + 0].token == seq![op][0]);
    assert(ts[pos + (open + l).len() + 0].token == close[0]);
    assert(ts[at + 1 + (open + r).len() + 0].token == close[0]);
}

proof fn lemma_job_read(ts: Seq<SpannedModel>, pos: int, len: usize, j: JobModel)
    requires
        stand(ts, pos, job_tokens(j)),
        job_piped(j),
        ends_at(ts, pos + job_tokens(j).len()),
    ensures
        chain(ts, pos, len) == Ok::<(ChainModel, int), ErrModel>(
            (ChainModel::Leaf(j), pos + job_tokens(j).len()),
        ),
    decreases j,
{
    let q = pos + job_tokens(j).len();
    match j {
        JobModel::Pipeline(segs) => {
            lemma_pipeline_read(ts, pos, len, segs, 0);
            assert(segs.take(0) =~= Seq::<SegModel>::empty());
            assert(processes(ts, pos, len) == Ok::<(Seq<SegModel>, int), ErrModel>((segs, q)));
            assert(pos < q) by {
                lemma_behind_words(ts, pos, segs, 0);
            }
            lemma_alone(ts, pos, len, ChainModel::Leaf(j), q);
        },
        JobModel::And(l, r) => {
            lemma_joined(ts, pos, job_tokens(*l), TokenModel::JobAnd, job_tokens(*r));
            lemma_job_pair_read(ts, pos, len, j, *l, *r, TokenModel::JobAnd);
        },
        JobModel::Or(l, r) => {
            lemma_joined(ts, pos, job_tokens(*l), TokenModel::JobOr, job_tokens(*r));
            lemma_job_pair_read(ts, pos, len, j, *l, *r, TokenModel::JobOr);
        },
    }
}

/// A pipeline behind which nothing goes on is the whole chain.
proof fn lemma_alone(ts: Seq<SpannedModel>, pos: int, len: usize, c: ChainModel, q: int)
    requires
        pipeline(ts, pos, len) == Ok::<(ChainModel, int), ErrModel>((c, q)),
        0 <= pos < q <= ts.len(),
        ends_at(ts, q),
    ensures
        job_expr(ts, pos, len) == Ok::<(ChainModel, int), ErrModel>((c, q)),
        parallel(ts, pos, len) == Ok::<(ChainModel, int), ErrModel>((c, q)),
        chain(ts, pos, len) == Ok::<(ChainModel, int), ErrModel>((c, q)),
{
    assert(job_rest(ts, q, len, c) == Ok::<(ChainModel, int), ErrModel>((c, q)));
    assert(parallel_rest(ts, q, len, c) == Ok::<(ChainModel, int), ErrModel>((c, q)));
    assert(chain_rest(ts, q, len, c) == Ok::<(ChainModel, int), ErrModel>((c, q)));
}

proof fn lemma_job_pair_read(
    ts: Seq<SpannedModel>,
    pos: int,
    len: usize,
    j: JobModel,
    l: JobModel,
    r: JobModel,
    op: TokenModel,
)
    requires
        op is JobAnd && j == JobModel::And(Box::new(l), Box::new(r)) || op is JobOr && j
            == JobModel::Or(Box::new(l), Box::new(r)),
        stand(ts, pos, job_tokens(j)),
        job_piped(j),
        ends_at(ts, pos + job_tokens(j).len()),
    ensures
        chain(ts, pos, len) == Ok::<(ChainModel, int), ErrModel>(
            (ChainModel::Leaf(j), pos + job_tokens(j).len()),
        ),
    decreases j, 0int,
{
    let lt = job_tokens(l);
    let rt = job_tokens(r);
    let at = pos + lt.len() + 2;
    let q = pos + job_tokens(j).len();
    lemma_joined(ts, pos, lt, op, rt);
    lemma_job_read(ts, pos + 1, len, l);
    lemma_group_read(ts, pos, len, lt, ChainModel::Leaf(l));
    lemma_job_read(ts, at + 2, len, r);
    lemma_group_read(ts, at + 1, len, rt, ChainModel::Leaf(r));
    let both = ChainModel::Leaf(j);
    assert(pipeline(ts, at + 1, len) == Ok::<(ChainModel, int), ErrModel>(
        (ChainModel::Leaf(r), q),
    ));
    assert(job_rest(ts, q, len, both) == Ok::<(ChainModel, int), ErrModel>((both, q)));
    assert(job_rest(ts, at, len, ChainModel::Leaf(l)) == Ok::<(ChainModel, int), ErrModel>(
        (both, q),
    ));
    assert(job_expr(ts, pos, len) == Ok::<(ChainModel, int), ErrModel>((both, q)));
    assert(parallel_rest(ts, q, len, both) == Ok::<(ChainModel, int), ErrModel>((both, q)));
    assert(chain_rest(ts, q, len, both) == Ok::<(ChainModel, int), ErrModel>((both, q)));
}

proof fn lemma_pair_read(
    ts: Seq<SpannedModel>,
    pos: int,
    len: usize,
    l: ChainModel,
    r: ChainModel,
    lt: Seq<TokenModel>,
    rt: Seq<TokenModel>,
    op: TokenModel,
)
    requires
        serial_op(op) is Some || parallel_op(op) is Some,
        stand(ts, pos, joined(lt, op, rt)),
        chain(ts, pos + 1, len) == Ok::<(ChainModel, int), ErrModel>((l, pos + 1 + lt.len())),
        chain(ts, pos + lt.len() + 4, len) == Ok::<(ChainModel, int), ErrModel>(
            (r, pos + lt.len() + 4 + rt.len()),
        ),
        ends_at(ts, pos + lt.len() + rt.len() + 5),
    ensures
        ({
            let q = pos + lt.len() + rt.len() + 5;
            let both = match serial_op(op) {
                Some(o) => ChainModel::Serial(o, Box::new(l), Box::new(r)),
                None => ChainModel::Parallel(parallel_op(op)->0, Box::new(l), Box::new(r)),
            };
            chain(ts, pos, len) == Ok::<(ChainModel, int), ErrModel>((both, q))
        }),
{
    let at = pos + lt.len() + 2;
    let q = pos + lt.len() + rt.len() + 5;
    lemma_joined(ts, pos, lt, op, rt);
    lemma_group_read(ts, pos, len, lt, l);
    lemma_group_read(ts, at + 1, len, rt, r);
    lemma_alone(ts, at + 1, len, r, q);
    assert(job_rest(ts, at, len, l) == Ok::<(ChainModel, int), ErrModel>((l, at)));
    assert(job_expr(ts, pos, len) == Ok::<(ChainModel, int), ErrModel>((l, at)));
    if let Some(o) = serial_op(op) {
        let both = ChainModel::Serial(o, Box::new(l), Box::new(r));
        assert(parallel_rest(ts, at, len, l) == Ok::<(ChainModel, int), ErrModel>((l, at)));
        assert(chain_rest(ts, q, len, both) == Ok::<(ChainModel, int), ErrModel>((both, q)));
        assert(chain_rest(ts, at, len, l) == Ok::<(ChainModel, int), ErrModel>((both, q)));
    } else {
        let both = ChainModel::Parallel(parallel_op(op)->0, Box::new(l), Box::new(r));
        assert(parallel_rest(ts, q, len, both) == Ok::<(ChainModel, int), ErrModel>((both, q)));
        assert(parallel_rest(ts, at, len, l) == Ok::<(ChainModel, int), ErrModel>((both, q)));
        assert(chain_rest(ts, q, len, both) == Ok::<(ChainModel, int), ErrModel>((both, q)));
    }
}

/// Every chain can be written, and what is written is read back: with parentheses around
/// all that an operator joins, the tokens of a chain are parsed to that chain.
pub proof fn lemma_chain_read_back(ts: Seq<SpannedModel>, pos: int, len: usize, c: ChainModel)
    requires
        stand(ts, pos, chain_tokens(c)),
        chain_piped(c),
        ends_at(ts, pos + chain_tokens(c).len()),
    ensures
        chain(ts, pos, len) == Ok::<(ChainModel, int), ErrModel>(
            (c, pos + chain_tokens(c).len()),
        ),
    decreases c,
{
    match c {
        ChainModel::Leaf(j) => {
            lemma_job_read(ts, pos, len, j);
        },
        ChainModel::Serial(o, l, r) => {
            let op = match o {
                SerialOp::Then => TokenModel::SerialThen,
                SerialOp::Always => TokenModel::SerialAlways,
            };
            let lt = chain_tokens(*l);
            let rt = chain_tokens(*r);
            assert(chain_tokens(c) == joined(lt, op, rt));
            lemma_joined(ts, pos, lt, op, rt);
            lemma_chain_read_back(ts, pos + 1, len, *l);
            lemma_chain_read_back(ts, pos + lt.len() + 4, len, *r);
            lemma_pair_read(ts, pos, len, *l, *r, lt, rt, op);
        },
        ChainModel::Parallel(o, l, r) => {
            let op = match o {
                ParallelOp::All => TokenModel::ParallelAll,
                ParallelOp::Race => TokenModel::ParallelRace,
            };
            let lt = chain_tokens(*l);
            let rt = chain_tokens(*r);
            assert(chain_tokens(c) == joined(lt, op, rt));
            lemma_joined(ts, pos, lt, op, rt);
            lemma_chain_read_back(ts, pos + 1, len, *l);
            lemma_chain_read_back(ts, pos + lt.len() + 4, len, *r);
            lemma_pair_read(ts, pos, len, *l, *r, lt, rt, op);
        },
    }
}

} // verus!
