//! The grammar, as functions from a token sequence and a position to a tree
//! and the position behind it.
//!
//! ```ebnf
//! input       = command | bare_input
//! command     = ":" cmd_name mode_params? argument
//! bare_input  = chain
//!
//! chain       = parallel (serial_op parallel)*
//! parallel    = job_expr (parallel_op job_expr)*
//! job_expr    = pipeline (("&&" | "||") pipeline)*
//! pipeline    = atom (pipe_op atom)*
//! atom        = "(" chain ")" | word+
//!
//! serial_op   = "->" | "~>"
//! parallel_op = "|||" | "|?|"
//! pipe_op     = "|>" | "|&>" | "|!>"
//! ```
//!
//! All binary operators associate to the left. A tree has no place for a chain
//! inside a pipeline, nor for one of several jobs beside `&&` or `||`: such a
//! group is an error.

use vstd::prelude::*;

use super::ast::{ArgModel, AstModel, ItemModel};
use super::error::{error_with, error_with2, plain_error, ErrModel, ParseErrorKind};
use super::token::{id_text, token_text, IdKind, Span, SpannedModel, TokenModel, ValueModel};
use super::tokenizer::{offset, token_models};
use crate::command_spec::{
    find_param, find_param_for, find_spec, id_kind_display, id_kind_example, registry, suggestions,
    CommandArgKind, CommandIdKind, ModeParamValueKind, ParamModel, SpecModel,
};
use crate::pipeline::{ChainModel, JobModel, ParallelOp, PipeOp, SegModel, SerialOp};
use crate::text;
use crate::text::Text;

verus! {

/// A tree and the position behind it, or an error.
pub type Parsed<T> = Result<(T, int), ErrModel>;

/// Whether a token is whitespace.
pub open spec fn is_blank(t: SpannedModel) -> bool {
    t.token is Whitespace
}

/// The token at `pos`; `Eof` past the end.
pub open spec fn peek(ts: Seq<SpannedModel>, pos: int) -> TokenModel {
    if 0 <= pos < ts.len() {
        ts[pos].token
    } else {
        TokenModel::Eof
    }
}

/// The span of the token at `pos`; the end of the input past the end.
pub open spec fn peek_span(ts: Seq<SpannedModel>, pos: int, len: usize) -> Span {
    if 0 <= pos < ts.len() {
        Span { start: ts[pos].start as usize, end: ts[pos].end as usize }
    } else {
        Span { start: len, end: len }
    }
}

// ── Chains ──

/// The text of a token that can stand in a command line.
pub open spec fn atom_text(t: TokenModel) -> Option<Text> {
    match t {
        TokenModel::Word(w) => Some(w),
        TokenModel::IdRef(k, n) => Some(id_text(k, n)),
        TokenModel::Command(c) => Some(":"@ + c),
        _ => None,
    }
}

/// The words from `pos` on, behind those in `acc`.
pub open spec fn atom_words(ts: Seq<SpannedModel>, pos: int, acc: Seq<Text>) -> (Seq<Text>, int)
    decreases ts.len() - pos,
{
    match atom_text(peek(ts, pos)) {
        Some(w) => if 0 <= pos < ts.len() {
            atom_words(ts, pos + 1, acc.push(w))
        } else {
            (acc, pos)
        },
        None => (acc, pos),
    }
}

pub open spec fn group_error(span: Span) -> ErrModel {
    error_with2(
        span,
        "cannot nest a chain group `(...)` inside a pipeline. Use `|>` for process pipes, `->` / `|||` for job chains."@,
        ParseErrorKind::UnexpectedToken,
        "use |> for piping between processes"@,
        "use -> for serial job chaining"@,
    )
}

pub open spec fn no_command_error(span: Span) -> ErrModel {
    plain_error(span, "expected command"@, ParseErrorKind::MissingArgument)
}

pub open spec fn unclosed_error(span: Span) -> ErrModel {
    plain_error(span, "expected `)` to close the chain group"@, ParseErrorKind::UnmatchedParen)
}

pub open spec fn joined_error(span: Span) -> ErrModel {
    error_with(
        span,
        "cannot join a chain group `(...)` by `&&` or `||`. Use `->` / `|||` for job chains."@,
        ParseErrorKind::UnexpectedToken,
        "use -> for serial job chaining"@,
    )
}

/// One process: words, at least one, and no group.
pub open spec fn process(ts: Seq<SpannedModel>, pos: int, len: usize) -> Parsed<Seq<Text>> {
    if peek(ts, pos) is GroupOpen {
        Err(group_error(peek_span(ts, pos, len)))
    } else {
        let (words, p) = atom_words(ts, pos, Seq::empty());
        if words.len() == 0 {
            Err(no_command_error(peek_span(ts, p, len)))
        } else {
            Ok((words, p))
        }
    }
}

pub open spec fn pipe_op(t: TokenModel) -> Option<PipeOp> {
    match t {
        TokenModel::PipeStdout => Some(PipeOp::Stdout),
        TokenModel::PipeAll => Some(PipeOp::StdoutStderr),
        TokenModel::PipeStderr => Some(PipeOp::StderrOnly),
        _ => None,
    }
}

pub proof fn lemma_atom_words(ts: Seq<SpannedModel>, pos: int, acc: Seq<Text>)
    requires
        0 <= pos <= ts.len(),
    ensures
        pos <= atom_words(ts, pos, acc).1 <= ts.len(),
        atom_words(ts, pos, acc).0.len() == acc.len() + atom_words(ts, pos, acc).1 - pos,
    decreases ts.len() - pos,
{
    if let Some(w) = atom_text(peek(ts, pos)) {
        if pos < ts.len() {
            lemma_atom_words(ts, pos + 1, acc.push(w));
        }
    }
}

/// The rest of a pipeline whose processes so far are `acc`, the last of them
/// `words`, still without its pipe.
pub open spec fn pipeline_rest(
    ts: Seq<SpannedModel>,
    pos: int,
    len: usize,
    acc: Seq<SegModel>,
    words: Seq<Text>,
) -> Parsed<Seq<SegModel>>
    decreases ts.len() - pos,
{
    match pipe_op(peek(ts, pos)) {
        Some(op) => if 0 <= pos < ts.len() {
            let done = acc.push(SegModel { command: words, pipe_to_next: Some(op) });
            proof {
                lemma_atom_words(ts, pos + 1, Seq::empty());
            }
            match process(ts, pos + 1, len) {
                Ok((next, p)) => pipeline_rest(ts, p, len, done, next),
                Err(e) => Err(e),
            }
        } else {
            Ok((acc, pos))
        },
        None => Ok((acc.push(SegModel { command: words, pipe_to_next: None }), pos)),
    }
}

/// Processes connected by pipes.
pub open spec fn processes(ts: Seq<SpannedModel>, pos: int, len: usize) -> Parsed<Seq<SegModel>> {
    match process(ts, pos, len) {
        Err(e) => Err(e),
        Ok((words, p)) => pipeline_rest(ts, p, len, Seq::empty(), words),
    }
}

/// The tokens from `pos` on.
pub open spec fn left(ts: Seq<SpannedModel>, pos: int) -> int {
    if pos <= ts.len() {
        ts.len() - pos
    } else {
        0
    }
}

/// The position `p`, if it lies behind `pos` as it should; else the end.
pub open spec fn ahead(ts: Seq<SpannedModel>, pos: int, p: int) -> int {
    if pos < p <= ts.len() {
        p
    } else {
        ts.len() as int
    }
}

/// pipeline = atom (pipe_op atom)*, where a group is an atom alone.
pub open spec fn pipeline(ts: Seq<SpannedModel>, pos: int, len: usize) -> Parsed<ChainModel>
    decreases left(ts, pos), 0int,
{
    if peek(ts, pos) is GroupOpen && 0 <= pos < ts.len() {
        match chain(ts, pos + 1, len) {
            Err(e) => Err(e),
            Ok((inner, p)) => if !(peek(ts, p) is GroupClose) {
                Err(unclosed_error(peek_span(ts, p, len)))
            } else if pipe_op(peek(ts, p + 1)) is Some {
                Err(group_error(peek_span(ts, pos, len)))
            } else {
                Ok((inner, p + 1))
            },
        }
    } else {
        match processes(ts, pos, len) {
            Err(e) => Err(e),
            Ok((segments, p)) => Ok((ChainModel::Leaf(JobModel::Pipeline(segments)), p)),
        }
    }
}

/// The rest of a job whose pipelines so far make `first`.
pub open spec fn job_rest(ts: Seq<SpannedModel>, pos: int, len: usize, first: ChainModel) -> Parsed<
    ChainModel,
>
    decreases left(ts, pos), 1int,
{
    let t = peek(ts, pos);
    if (t is JobAnd || t is JobOr) && 0 <= pos < ts.len() {
        match first {
            ChainModel::Leaf(l) => match pipeline(ts, pos + 1, len) {
                Err(e) => Err(e),
                Ok((ChainModel::Leaf(r), p)) => {
                    let both = if t is JobAnd {
                        JobModel::And(Box::new(l), Box::new(r))
                    } else {
                        JobModel::Or(Box::new(l), Box::new(r))
                    };
                    job_rest(ts, ahead(ts, pos, p), len, ChainModel::Leaf(both))
                },
                Ok(_) => Err(joined_error(peek_span(ts, pos + 1, len))),
            },
            _ => Err(joined_error(peek_span(ts, pos, len))),
        }
    } else {
        Ok((first, pos))
    }
}

/// job_expr = pipeline (("&&" | "||") pipeline)*
pub open spec fn job_expr(ts: Seq<SpannedModel>, pos: int, len: usize) -> Parsed<ChainModel>
    decreases left(ts, pos), 2int,
{
    match pipeline(ts, pos, len) {
        Err(e) => Err(e),
        Ok((first, p)) => job_rest(ts, ahead(ts, pos, p), len, first),
    }
}

pub open spec fn parallel_op(t: TokenModel) -> Option<ParallelOp> {
    match t {
        TokenModel::ParallelAll => Some(ParallelOp::All),
        TokenModel::ParallelRace => Some(ParallelOp::Race),
        _ => None,
    }
}

/// The rest of a parallel group whose branches so far make `first`.
pub open spec fn parallel_rest(
    ts: Seq<SpannedModel>,
    pos: int,
    len: usize,
    first: ChainModel,
) -> Parsed<ChainModel>
    decreases left(ts, pos), 3int,
{
    match parallel_op(peek(ts, pos)) {
        Some(op) => if 0 <= pos < ts.len() {
            match job_expr(ts, pos + 1, len) {
                Err(e) => Err(e),
                Ok((next, p)) => parallel_rest(
                    ts,
                    ahead(ts, pos, p),
                    len,
                    ChainModel::Parallel(op, Box::new(first), Box::new(next)),
                ),
            }
        } else {
            Ok((first, pos))
        },
        None => Ok((first, pos)),
    }
}

/// parallel = job_expr (parallel_op job_expr)*
pub open spec fn parallel(ts: Seq<SpannedModel>, pos: int, len: usize) -> Parsed<ChainModel>
    decreases left(ts, pos), 4int,
{
    match job_expr(ts, pos, len) {
        Err(e) => Err(e),
        Ok((first, p)) => parallel_rest(ts, ahead(ts, pos, p), len, first),
    }
}

pub open spec fn serial_op(t: TokenModel) -> Option<SerialOp> {
    match t {
        TokenModel::SerialThen => Some(SerialOp::Then),
        TokenModel::SerialAlways => Some(SerialOp::Always),
        _ => None,
    }
}

/// The rest of a chain whose steps so far make `first`.
pub open spec fn chain_rest(
    ts: Seq<SpannedModel>,
    pos: int,
    len: usize,
    first: ChainModel,
) -> Parsed<ChainModel>
    decreases left(ts, pos), 5int,
{
    match serial_op(peek(ts, pos)) {
        Some(op) => if 0 <= pos < ts.len() {
            match parallel(ts, pos + 1, len) {
                Err(e) => Err(e),
                Ok((next, p)) => chain_rest(
                    ts,
                    ahead(ts, pos, p),
                    len,
                    ChainModel::Serial(op, Box::new(first), Box::new(next)),
                ),
            }
        } else {
            Ok((first, pos))
        },
        None => Ok((first, pos)),
    }
}

/// chain = parallel (serial_op parallel)*
pub open spec fn chain(ts: Seq<SpannedModel>, pos: int, len: usize) -> Parsed<ChainModel>
    decreases left(ts, pos), 6int,
{
    match parallel(ts, pos, len) {
        Err(e) => Err(e),
        Ok((first, p)) => chain_rest(ts, ahead(ts, pos, p), len, first),
    }
}

// ── Laws of chains ──

/// A pipeline has a process, each process a word, and each process but the
/// last a pipe behind it.
pub open spec fn piped(segments: Seq<SegModel>) -> bool {
    &&& segments.len() > 0
    &&& forall|i: int|
        0 <= i < segments.len() ==> {
            &&& (#[trigger] segments[i]).command.len() > 0
            &&& segments[i].pipe_to_next is None <==> i == segments.len() - 1
        }
}

pub open spec fn job_piped(job: JobModel) -> bool
    decreases job,
{
    match job {
        JobModel::Pipeline(segments) => piped(segments),
        JobModel::And(l, r) => job_piped(*l) && job_piped(*r),
        JobModel::Or(l, r) => job_piped(*l) && job_piped(*r),
    }
}

/// All pipelines of the chain are such.
pub open spec fn chain_piped(c: ChainModel) -> bool
    decreases c,
{
    match c {
        ChainModel::Leaf(job) => job_piped(job),
        ChainModel::Serial(_, l, r) => chain_piped(*l) && chain_piped(*r),
        ChainModel::Parallel(_, l, r) => chain_piped(*l) && chain_piped(*r),
    }
}

/// The tree is made of whole pipelines, and the position behind it lies behind
/// `pos`.
pub open spec fn sound(ts: Seq<SpannedModel>, pos: int, r: Parsed<ChainModel>) -> bool {
    r matches Ok((c, q)) ==> chain_piped(c) && pos < q <= ts.len()
}

proof fn lemma_pipeline_rest(
    ts: Seq<SpannedModel>,
    pos: int,
    len: usize,
    acc: Seq<SegModel>,
    words: Seq<Text>,
)
    requires
        0 <= pos <= ts.len(),
        words.len() > 0,
        forall|i: int|
            0 <= i < acc.len() ==> (#[trigger] acc[i]).command.len() > 0 && acc[i].pipe_to_next is Some,
    ensures
        pipeline_rest(ts, pos, len, acc, words) matches Ok((s, q)) ==> piped(s) && pos <= q
            <= ts.len(),
    decreases ts.len() - pos,
{
    if let Some(op) = pipe_op(peek(ts, pos)) {
        lemma_atom_words(ts, pos + 1, Seq::empty());
        let done = acc.push(SegModel { command: words, pipe_to_next: Some(op) });
        if let Ok((next, p)) = process(ts, pos + 1, len) {
            lemma_pipeline_rest(ts, p, len, done, next);
        }
    }
}

proof fn lemma_pipeline(ts: Seq<SpannedModel>, pos: int, len: usize)
    requires
        0 <= pos <= ts.len(),
    ensures
        sound(ts, pos, pipeline(ts, pos, len)),
    decreases left(ts, pos), 0int,
{
    if peek(ts, pos) is GroupOpen && pos < ts.len() {
        lemma_chain_sound(ts, pos + 1, len);
    } else {
        lemma_atom_words(ts, pos, Seq::empty());
        if let Ok((words, p)) = process(ts, pos, len) {
            lemma_pipeline_rest(ts, p, len, Seq::empty(), words);
        }
    }
}

proof fn lemma_job_rest(ts: Seq<SpannedModel>, pos: int, len: usize, first: ChainModel)
    requires
        0 <= pos <= ts.len(),
        chain_piped(first),
    ensures
        sound(ts, pos - 1, job_rest(ts, pos, len, first)),
    decreases left(ts, pos), 1int,
{
    let t = peek(ts, pos);
    if (t is JobAnd || t is JobOr) && pos < ts.len() {
        lemma_pipeline(ts, pos + 1, len);
        if let ChainModel::Leaf(l) = first {
            if let Ok((ChainModel::Leaf(r), p)) = pipeline(ts, pos + 1, len) {
                let both = if t is JobAnd {
                    JobModel::And(Box::new(l), Box::new(r))
                } else {
                    JobModel::Or(Box::new(l), Box::new(r))
                };
                assert(chain_piped(ChainModel::Leaf(r)));
                assert(job_piped(both));
                lemma_job_rest(ts, ahead(ts, pos, p), len, ChainModel::Leaf(both));
            }
        }
    }
}

proof fn lemma_job_expr(ts: Seq<SpannedModel>, pos: int, len: usize)
    requires
        0 <= pos <= ts.len(),
    ensures
        sound(ts, pos, job_expr(ts, pos, len)),
    decreases left(ts, pos), 2int,
{
    lemma_pipeline(ts, pos, len);
    if let Ok((first, p)) = pipeline(ts, pos, len) {
        lemma_job_rest(ts, ahead(ts, pos, p), len, first);
    }
}

proof fn lemma_parallel_rest(ts: Seq<SpannedModel>, pos: int, len: usize, first: ChainModel)
    requires
        0 <= pos <= ts.len(),
        chain_piped(first),
    ensures
        sound(ts, pos - 1, parallel_rest(ts, pos, len, first)),
    decreases left(ts, pos), 3int,
{
    if let Some(op) = parallel_op(peek(ts, pos)) {
        lemma_job_expr(ts, pos + 1, len);
        if let Ok((next, p)) = job_expr(ts, pos + 1, len) {
            let both = ChainModel::Parallel(op, Box::new(first), Box::new(next));
            assert(chain_piped(both));
            lemma_parallel_rest(ts, ahead(ts, pos, p), len, both);
        }
    }
}

proof fn lemma_parallel(ts: Seq<SpannedModel>, pos: int, len: usize)
    requires
        0 <= pos <= ts.len(),
    ensures
        sound(ts, pos, parallel(ts, pos, len)),
    decreases left(ts, pos), 4int,
{
    lemma_job_expr(ts, pos, len);
    if let Ok((first, p)) = job_expr(ts, pos, len) {
        lemma_parallel_rest(ts, ahead(ts, pos, p), len, first);
    }
}

proof fn lemma_chain_rest(ts: Seq<SpannedModel>, pos: int, len: usize, first: ChainModel)
    requires
        0 <= pos <= ts.len(),
        chain_piped(first),
    ensures
        sound(ts, pos - 1, chain_rest(ts, pos, len, first)),
    decreases left(ts, pos), 5int,
{
    if let Some(op) = serial_op(peek(ts, pos)) {
        lemma_parallel(ts, pos + 1, len);
        if let Ok((next, p)) = parallel(ts, pos + 1, len) {
            let both = ChainModel::Serial(op, Box::new(first), Box::new(next));
            assert(chain_piped(both));
            lemma_chain_rest(ts, ahead(ts, pos, p), len, both);
        }
    }
}

/// A chain that is parsed consumes tokens, and all of its pipelines are whole:
/// each has a process, each process a word, and a pipe stands behind each
/// process but the last.
pub proof fn lemma_chain_sound(ts: Seq<SpannedModel>, pos: int, len: usize)
    requires
        0 <= pos <= ts.len(),
    ensures
        sound(ts, pos, chain(ts, pos, len)),
    decreases left(ts, pos), 6int,
{
    lemma_parallel(ts, pos, len);
    if let Ok((first, p)) = parallel(ts, pos, len) {
        lemma_chain_rest(ts, ahead(ts, pos, p), len, first);
    }
}

/// Parentheses around a chain give the chain itself: where a chain ends at a
/// closing parenthesis that no pipe follows, the group from the parenthesis in
/// front of it to the one behind it is an atom with the same tree.
pub proof fn lemma_group_is_its_chain(ts: Seq<SpannedModel>, pos: int, len: usize)
    requires
        0 <= pos < ts.len(),
        peek(ts, pos) is GroupOpen,
        chain(ts, pos + 1, len) matches Ok((c, p)) && peek(ts, p) is GroupClose && pipe_op(
            peek(ts, p + 1),
        ) is None,
    ensures
        pipeline(ts, pos, len) == Ok::<(ChainModel, int), ErrModel>(
            (chain(ts, pos + 1, len)->Ok_0.0, chain(ts, pos + 1, len)->Ok_0.1 + 1),
        ),
{
}

// ── Mode params ──

pub open spec fn expected_error(ts: Seq<SpannedModel>, pos: int, len: usize, what: Text) -> ErrModel {
    plain_error(
        peek_span(ts, pos, len),
        "expected "@ + what + ", found "@ + token_text(peek(ts, pos)),
        ParseErrorKind::InvalidModeParam,
    )
}

/// `=` and the value behind it: the value, its span and the position behind it.
pub open spec fn param_value(ts: Seq<SpannedModel>, pos: int, len: usize) -> Parsed<
    (ValueModel, Span),
> {
    if !(peek(ts, pos) is ParamEq) {
        Err(
            plain_error(
                peek_span(ts, pos, len),
                "expected "@ + "="@ + ", found "@ + token_text(peek(ts, pos)),
                ParseErrorKind::UnexpectedToken,
            ),
        )
    } else {
        match peek(ts, pos + 1) {
            TokenModel::ParamValue(v) => Ok(((v, peek_span(ts, pos + 1, len)), pos + 2)),
            TokenModel::Word(w) => Ok(
                ((ValueModel::Str(w), peek_span(ts, pos + 1, len)), pos + 2),
            ),
            _ => Err(expected_error(ts, pos + 1, len, "parameter value"@)),
        }
    }
}

pub open spec fn value_kind_name(kind: ModeParamValueKind) -> Text {
    match kind {
        ModeParamValueKind::String => "a string"@,
        ModeParamValueKind::Bool => "a boolean"@,
    }
}

/// Whether a value is of the kind that a parameter takes.
pub open spec fn value_fits(kind: ModeParamValueKind, v: ValueModel) -> bool {
    match kind {
        ModeParamValueKind::String => v is Str,
        ModeParamValueKind::Bool => v is Bool,
    }
}

pub open spec fn value_kind_error(p: ParamModel, span: Span) -> ErrModel {
    error_with(
        span,
        "mode parameter `"@ + p.name + "` expects "@ + value_kind_name(p.value_kind) + " (e.g. "@
            + p.value_hint + ")"@,
        ParseErrorKind::InvalidModeParam,
        p.name + "="@ + p.value_hint,
    )
}

/// A `need.<resource>` parameter whose name ends in front of `pos`.
pub open spec fn need_param(
    ts: Seq<SpannedModel>,
    pos: int,
    len: usize,
    key: Text,
    key_span: Span,
) -> Parsed<(Text, ValueModel)> {
    if key == "need."@ {
        Err(
            error_with2(
                key_span,
                "`need.` requires a key suffix (e.g. `need.gpu_mem=24GiB`)"@,
                ParseErrorKind::InvalidModeParam,
                "need.gpu=1"@,
                "need.gpu_mem=24GiB"@,
            ),
        )
    } else {
        match param_value(ts, pos, len) {
            Err(e) => Err(e),
            Ok(((v, span), p)) => if v is Str {
                Ok(((key, v), p))
            } else {
                Err(
                    error_with2(
                        span,
                        "resource need `"@ + key
                            + "` expects a string quantity (e.g. 1 or 24GiB), got a boolean"@,
                        ParseErrorKind::InvalidModeParam,
                        key + "=1"@,
                        key + "=24GiB"@,
                    ),
                )
            },
        }
    }
}

/// A registered parameter of `command` whose name ends in front of `pos`.
pub open spec fn plain_param(
    ts: Seq<SpannedModel>,
    pos: int,
    len: usize,
    command: Text,
    key: Text,
    key_span: Span,
) -> Parsed<(Text, ValueModel)> {
    match (find_param(key), find_param_for(command, key)) {
        (None, _) => Err(
            plain_error(
                key_span,
                "unknown mode parameter `"@ + key + "`"@,
                ParseErrorKind::InvalidModeParam,
            ),
        ),
        (Some(_), None) => Err(
            plain_error(
                key_span,
                "mode parameter `"@ + key + "` is not supported by `:"@ + command + "`"@,
                ParseErrorKind::InvalidModeParam,
            ),
        ),
        (Some(_), Some(param)) => match param_value(ts, pos, len) {
            Err(e) => Err(e),
            Ok(((v, span), p)) => if value_fits(param.value_kind, v) {
                Ok(((key, v), p))
            } else {
                Err(value_kind_error(param, span))
            },
        },
    }
}

/// One parameter, from its name on.
pub open spec fn mode_param(ts: Seq<SpannedModel>, pos: int, len: usize, command: Text) -> Parsed<
    (Text, ValueModel),
> {
    match peek(ts, pos) {
        TokenModel::Word(key) => if text::starts_with(key, "need."@) {
            need_param(ts, pos + 1, len, key, peek_span(ts, pos, len))
        } else {
            plain_param(ts, pos + 1, len, command, key, peek_span(ts, pos, len))
        },
        _ => Err(expected_error(ts, pos, len, "parameter name"@)),
    }
}

/// The parameters up to the closing parenthesis, behind those in `acc`.
pub open spec fn mode_params(
    ts: Seq<SpannedModel>,
    pos: int,
    len: usize,
    command: Text,
    acc: Seq<(Text, ValueModel)>,
) -> Parsed<Seq<(Text, ValueModel)>>
    decreases ts.len() - pos,
{
    if !(0 <= pos < ts.len()) || peek(ts, pos) is Eof {
        Err(
            plain_error(
                peek_span(ts, pos, len),
                "unterminated mode params"@,
                ParseErrorKind::UnmatchedParen,
            ),
        )
    } else if peek(ts, pos) is ModeParenClose {
        Ok((acc, pos + 1))
    } else if peek(ts, pos) is Comma {
        mode_params(ts, pos + 1, len, command, acc)
    } else {
        match mode_param(ts, pos, len, command) {
            Err(e) => Err(e),
            Ok((param, p)) => if pos < p <= ts.len() {
                mode_params(ts, p, len, command, acc.push(param))
            } else {
                Ok((acc, p))
            },
        }
    }
}

// ── Arguments ──

/// The number that `w` denotes, with an optional `+` in front.
pub open spec fn usize_of(w: Text) -> Option<nat> {
    if w.len() > 0 && w[0] == '+' {
        text::parse_unsigned(w.drop_first(), usize::MAX as nat)
    } else {
        text::parse_unsigned(w, usize::MAX as nat)
    }
}

pub open spec fn id_accepted(allowed: CommandIdKind, actual: IdKind) -> bool {
    match actual {
        IdKind::Job => allowed != CommandIdKind::Cron,
        IdKind::Cron => allowed != CommandIdKind::Job,
    }
}

pub open spec fn id_kind_error(name: Text, allowed: CommandIdKind, actual: IdKind, span: Span) -> ErrModel {
    error_with(
        span,
        ":"@ + name + " expects "@ + id_kind_display(allowed) + " ID, got "@
            + super::token::id_letter(actual),
        ParseErrorKind::InvalidIdRef,
        ":"@ + name + " "@ + id_kind_example(allowed),
    )
}

pub open spec fn id_missing_message(name: Text, allowed: CommandIdKind) -> Text {
    ":"@ + name + " requires an ID ("@ + id_kind_display(allowed) + ")"@
}

/// The position of the first `Eof` at or after `pos`, or the length.
pub open spec fn eof_from(ts: Seq<SpannedModel>, pos: int) -> int
    decreases ts.len() - pos,
{
    if 0 <= pos < ts.len() && !(ts[pos].token is Eof) {
        eof_from(ts, pos + 1)
    } else {
        pos
    }
}

/// The input text from the token at `pos` to the last token.
pub open spec fn raw_text(ts: Seq<SpannedModel>, pos: int, input: Text) -> Text {
    if peek(ts, pos) is Eof {
        Seq::empty()
    } else {
        text::byte_slice(input, ts[pos].start, ts.last().end)
    }
}

/// The shown texts of the tokens from `pos` to the end.
pub open spec fn shown_texts(ts: Seq<SpannedModel>, from: int, to: int) -> Seq<Text> {
    Seq::new((to - from) as nat, |i: int| token_text(ts[from + i].token))
}

pub open spec fn id_argument(
    ts: Seq<SpannedModel>,
    pos: int,
    len: usize,
    name: Text,
    allowed: CommandIdKind,
) -> Parsed<ArgModel> {
    match peek(ts, pos) {
        TokenModel::IdRef(k, n) => if id_accepted(allowed, k) {
            Ok((ArgModel::IdRef(k, n), pos + 1))
        } else {
            Err(id_kind_error(name, allowed, k, peek_span(ts, pos, len)))
        },
        _ => Err(
            error_with(
                peek_span(ts, pos, len),
                id_missing_message(name, allowed),
                ParseErrorKind::InvalidIdRef,
                ":"@ + name + " "@ + id_kind_example(allowed),
            ),
        ),
    }
}

pub open spec fn tail_argument(
    ts: Seq<SpannedModel>,
    pos: int,
    len: usize,
    name: Text,
    allowed: CommandIdKind,
) -> Parsed<ArgModel> {
    match peek(ts, pos) {
        TokenModel::IdRef(k, n) => if id_accepted(allowed, k) {
            match peek(ts, pos + 1) {
                TokenModel::Word(w) => match usize_of(w) {
                    Some(b) => Ok((ArgModel::TailRef(k, n, Some(b as usize)), pos + 2)),
                    None => Ok((ArgModel::TailRef(k, n, None), pos + 1)),
                },
                _ => Ok((ArgModel::TailRef(k, n, None), pos + 1)),
            }
        } else {
            Err(id_kind_error(name, allowed, k, peek_span(ts, pos, len)))
        },
        _ => Err(
            error_with2(
                peek_span(ts, pos, len),
                id_missing_message(name, allowed),
                ParseErrorKind::InvalidIdRef,
                ":"@ + name + " "@ + id_kind_example(allowed),
                ":"@ + name + " "@ + id_kind_example(allowed) + " 1024"@,
            ),
        ),
    }
}

pub open spec fn target_missing_error(
    span: Span,
    message: Text,
    kind: ParseErrorKind,
    name: Text,
    allowed: CommandIdKind,
) -> ErrModel {
    error_with(
        span,
        message,
        kind,
        ":"@ + name + " "@ + id_kind_example(allowed) + " your input"@,
    )
}

pub open spec fn target_and_input(name: Text) -> Text {
    "`:"@ + name + "` requires a target and input"@
}

/// Whether the token at `pos` names a target that the command takes.
pub open spec fn text_target(
    ts: Seq<SpannedModel>,
    pos: int,
    len: usize,
    name: Text,
    allowed: CommandIdKind,
) -> Option<ErrModel> {
    let span = peek_span(ts, pos, len);
    match peek(ts, pos) {
        TokenModel::IdRef(k, _) => if id_accepted(allowed, k) {
            None
        } else {
            Some(id_kind_error(name, allowed, k, span))
        },
        TokenModel::Eof => Some(
            target_missing_error(
                span,
                target_and_input(name),
                ParseErrorKind::MissingArgument,
                name,
                allowed,
            ),
        ),
        _ => Some(
            target_missing_error(
                span,
                ":"@ + name + " requires a target ID ("@ + id_kind_display(allowed) + ")"@,
                ParseErrorKind::InvalidIdRef,
                name,
                allowed,
            ),
        ),
    }
}

pub open spec fn text_missing_message(name: Text) -> Text {
    if name == "send"@ {
        "`:send` requires a target and input"@
    } else {
        ":"@ + name + " requires an argument"@
    }
}

/// The argument of a command of the given kind.
pub open spec fn argument(
    ts: Seq<SpannedModel>,
    pos: int,
    len: usize,
    input: Text,
    name: Text,
    kind: CommandArgKind,
) -> Parsed<ArgModel> {
    let span = peek_span(ts, pos, len);
    let end = eof_from(ts, pos);
    match kind {
        CommandArgKind::Chain => if peek(ts, pos) is Eof {
            Err(
                error_with(
                    span,
                    "`:"@ + name + "` requires a command"@,
                    ParseErrorKind::MissingArgument,
                    ":"@ + name + " cargo test"@,
                ),
            )
        } else {
            match chain(ts, pos, len) {
                Ok((c, p)) => Ok((ArgModel::Chain(c), p)),
                Err(e) => Err(e),
            }
        },
        CommandArgKind::Cron => if peek(ts, pos) is Eof {
            Err(
                error_with(
                    span,
                    "`:"@ + name + "` requires a schedule expression"@,
                    ParseErrorKind::MissingArgument,
                    ":cron every 5m cargo test"@,
                ),
            )
        } else {
            match chain(ts, pos, len) {
                Ok((c, p)) => Ok((ArgModel::Chain(c), p)),
                Err(e) => Err(e),
            }
        },
        CommandArgKind::Tail(allowed) => tail_argument(ts, pos, len, name, allowed),
        CommandArgKind::Id(allowed) => id_argument(ts, pos, len, name, allowed),
        CommandArgKind::Text => if raw_text(ts, pos, input).len() == 0 {
            Err(
                plain_error(
                    peek_span(ts, end, len),
                    text_missing_message(name),
                    ParseErrorKind::MissingArgument,
                ),
            )
        } else {
            Ok((ArgModel::Text(raw_text(ts, pos, input)), end))
        },
        CommandArgKind::TargetText(allowed) => match text_target(ts, pos, len, name, allowed) {
            Some(e) => Err(e),
            None => if raw_text(ts, pos, input).len() == 0 {
                Err(
                    target_missing_error(
                        peek_span(ts, end, len),
                        target_and_input(name),
                        ParseErrorKind::MissingArgument,
                        name,
                        allowed,
                    ),
                )
            } else {
                Ok((ArgModel::Text(raw_text(ts, pos, input)), end))
            },
        },
        CommandArgKind::OptionalId(allowed) => if peek(ts, pos) is IdRef {
            id_argument(ts, pos, len, name, allowed)
        } else {
            Ok((ArgModel::Empty, pos))
        },
        CommandArgKind::Empty => Ok((ArgModel::Empty, pos)),
        CommandArgKind::OptionalText => {
            let text = text::join(shown_texts(ts, pos, end), " "@);
            if text.len() == 0 {
                Ok((ArgModel::Empty, end))
            } else {
                Ok((ArgModel::Text(text), end))
            }
        },
    }
}

// ── Statements ──

/// Each name with a colon in front.
pub open spec fn with_colons(names: Seq<Text>) -> Seq<Text> {
    names.map_values(|n: Text| ":"@ + n)
}

pub open spec fn unknown_command_error(name: Text, span: Span) -> ErrModel {
    ErrModel {
        span,
        message: "unknown command `:"@ + name + "`"@,
        kind: ParseErrorKind::UnknownCommand,
        suggestions: with_colons(suggestions(name)),
    }
}

/// The mode params of a command, if a parenthesis opens them at `pos`.
pub open spec fn optional_params(
    ts: Seq<SpannedModel>,
    pos: int,
    len: usize,
    c: SpecModel,
) -> Parsed<Seq<(Text, ValueModel)>> {
    if !(peek(ts, pos) is ModeParenOpen) {
        Ok((Seq::empty(), pos))
    } else if !c.mode_params {
        Err(
            error_with(
                peek_span(ts, pos, len),
                "`:"@ + c.name + "` does not accept mode params"@,
                ParseErrorKind::InvalidModeParam,
                c.usage,
            ),
        )
    } else {
        mode_params(ts, pos + 1, len, c.name, Seq::empty())
    }
}

/// The command whose name stands in front of `pos`.
pub open spec fn command(
    ts: Seq<SpannedModel>,
    pos: int,
    len: usize,
    input: Text,
    name: Text,
    start: usize,
) -> Parsed<AstModel> {
    match find_spec(registry(), name) {
        None => Err(unknown_command_error(name, peek_span(ts, pos, len))),
        Some(c) => match optional_params(ts, pos, len, c) {
            Err(e) => Err(e),
            Ok((params, p)) => match argument(ts, p, len, input, name, c.arg_kind) {
                Err(e) => Err(e),
                Ok((arg, q)) => Ok(
                    (
                        AstModel::Command {
                            name,
                            mode_params: params,
                            argument: arg,
                            span: Span { start, end: peek_span(ts, q, len).start },
                        },
                        q,
                    ),
                ),
            },
        },
    }
}

/// One statement from the start of `ts`.
pub open spec fn statement(ts: Seq<SpannedModel>, len: usize, input: Text) -> Parsed<AstModel> {
    let start = peek_span(ts, 0, len).start;
    match peek(ts, 0) {
        TokenModel::Command(name) => command(ts, 1, len, input, name, start),
        TokenModel::Eof => Ok(
            (
                AstModel::BareInput { argument: ArgModel::Empty, span: Span { start, end: start } },
                0,
            ),
        ),
        _ => match chain(ts, 0, len) {
            Err(e) => Err(e),
            Ok((c, p)) => Ok(
                (
                    AstModel::BareInput {
                        argument: ArgModel::Chain(c),
                        span: Span { start, end: peek_span(ts, p, len).end },
                    },
                    p,
                ),
            ),
        },
    }
}

/// The statement that the whole of `ts` makes up.
pub open spec fn single_statement(ts: Seq<SpannedModel>, len: usize, input: Text) -> Result<
    AstModel,
    ErrModel,
> {
    match statement(ts, len, input) {
        Err(e) => Err(e),
        Ok((ast, p)) => if peek(ts, p) is Eof {
            Ok(ast)
        } else {
            Err(
                plain_error(
                    peek_span(ts, p, len),
                    "unexpected token "@ + token_text(peek(ts, p)),
                    ParseErrorKind::UnexpectedToken,
                ),
            )
        },
    }
}

// ── Scripts ──

/// The tokens of one statement, with the input text they cover.
pub struct ChunkModel {
    pub tokens: Seq<SpannedModel>,
    pub source: Text,
    pub span: Span,
}

/// `chunks` with the statement `current` added, unless it covers no text.
pub open spec fn push_chunk(
    chunks: Seq<ChunkModel>,
    current: Seq<SpannedModel>,
    input: Text,
) -> Seq<ChunkModel> {
    if current.len() == 0 {
        chunks
    } else {
        let source = text::trim(text::byte_slice(input, current[0].start, current.last().end));
        if source.len() == 0 {
            chunks
        } else {
            chunks.push(
                ChunkModel {
                    tokens: current,
                    source,
                    span: Span {
                        start: current[0].start as usize,
                        end: current.last().end as usize,
                    },
                },
            )
        }
    }
}

/// Whether an operator stands for the token, so that a line cannot end there.
pub open spec fn is_operator(t: TokenModel) -> bool {
    ||| t is SerialThen
    ||| t is SerialAlways
    ||| t is ParallelAll
    ||| t is ParallelRace
    ||| t is PipeStdout
    ||| t is PipeAll
    ||| t is PipeStderr
    ||| t is JobAnd
    ||| t is JobOr
}

/// The first token at or after `i` that is neither a newline nor the end.
pub open spec fn next_content(ts: Seq<SpannedModel>, i: int) -> Option<TokenModel>
    decreases ts.len() - i,
{
    if !(0 <= i < ts.len()) {
        None
    } else if ts[i].token is Newline || ts[i].token is Eof {
        next_content(ts, i + 1)
    } else {
        Some(ts[i].token)
    }
}

/// Whether the newline at `i` ends the statement `current`.
pub open spec fn splits_at(
    ts: Seq<SpannedModel>,
    i: int,
    depth: nat,
    current: Seq<SpannedModel>,
) -> bool {
    ||| current.len() == 0
    ||| {
        &&& depth == 0
        &&& !is_operator(current.last().token)
        &&& !(next_content(ts, i + 1) matches Some(t) && is_operator(t))
    }
}

/// The statements from token `i` on, behind `chunks`; `current` has been begun
/// and `depth` parentheses are open.
pub open spec fn split_from(
    ts: Seq<SpannedModel>,
    input: Text,
    i: int,
    chunks: Seq<ChunkModel>,
    current: Seq<SpannedModel>,
    depth: nat,
) -> Seq<ChunkModel>
    decreases ts.len() - i,
{
    if !(0 <= i < ts.len()) {
        push_chunk(chunks, current, input)
    } else {
        let t = ts[i].token;
        if t is Eof {
            push_chunk(chunks, current, input)
        } else if t is ModeParenOpen || t is GroupOpen {
            split_from(ts, input, i + 1, chunks, current.push(ts[i]), depth + 1)
        } else if t is ModeParenClose || t is GroupClose {
            split_from(
                ts,
                input,
                i + 1,
                chunks,
                current.push(ts[i]),
                if depth > 0 {
                    (depth - 1) as nat
                } else {
                    0
                },
            )
        } else if t is Newline {
            if splits_at(ts, i, depth, current) {
                split_from(
                    ts,
                    input,
                    i + 1,
                    push_chunk(chunks, current, input),
                    Seq::empty(),
                    depth,
                )
            } else {
                split_from(ts, input, i + 1, chunks, current, depth)
            }
        } else {
            split_from(ts, input, i + 1, chunks, current.push(ts[i]), depth)
        }
    }
}

/// The statements of the input.
pub open spec fn statements(ts: Seq<SpannedModel>, input: Text) -> Seq<ChunkModel> {
    split_from(ts, input, 0, Seq::empty(), Seq::empty(), 0)
}

/// The tree of one statement.
pub open spec fn item(c: ChunkModel, len: usize, input: Text) -> Result<ItemModel, ErrModel> {
    match single_statement(c.tokens, len, input) {
        Err(e) => Err(e),
        Ok(ast) => Ok(
            ItemModel { source: c.source, span: c.span, statement: Box::new(ast) },
        ),
    }
}

/// The trees of the statements, or the first error.
pub open spec fn items(chunks: Seq<ChunkModel>, len: usize, input: Text) -> Result<
    Seq<ItemModel>,
    ErrModel,
>
    decreases chunks.len(),
{
    if chunks.len() == 0 {
        Ok(Seq::empty())
    } else {
        match items(chunks.drop_last(), len, input) {
            Err(e) => Err(e),
            Ok(done) => match item(chunks.last(), len, input) {
                Err(e) => Err(e),
                Ok(it) => Ok(done.push(it)),
            },
        }
    }
}

/// The script that the statements make up.
pub open spec fn script(chunks: Seq<ChunkModel>, len: usize, input: Text) -> Result<
    AstModel,
    ErrModel,
> {
    match items(chunks, len, input) {
        Err(e) => Err(e),
        Ok(done) => Ok(
            AstModel::Script {
                items: done,
                span: Span { start: chunks[0].span.start, end: chunks.last().span.end },
            },
        ),
    }
}

/// The tokens of the input without whitespace.
pub open spec fn parser_tokens(input: Text) -> Result<Seq<SpannedModel>, ErrModel> {
    match token_models(input) {
        Ok(ts) => Ok(ts.filter(|t: SpannedModel| !is_blank(t))),
        Err(e) => {
            let pos = offset(input, e.at) as usize;
            Err(
                plain_error(
                    Span { start: pos, end: (pos + 1) as usize },
                    e.message,
                    ParseErrorKind::UnexpectedToken,
                ),
            )
        },
    }
}

/// The tree of an input line or of several.
pub open spec fn parse(input: Text) -> Result<AstModel, ErrModel> {
    match parser_tokens(input) {
        Err(e) => Err(e),
        Ok(ts) => {
            let chunks = statements(ts, input);
            let len = text::byte_len(input) as usize;
            if chunks.len() == 0 {
                Ok(
                    AstModel::BareInput {
                        argument: ArgModel::Empty,
                        span: Span { start: 0, end: 0 },
                    },
                )
            } else if chunks.len() == 1 {
                single_statement(chunks[0].tokens, len, input)
            } else {
                script(chunks, len, input)
            }
        },
    }
}

// ── File scripts ──

/// The index of the `#` that begins a comment in `line`, or its length. A
/// comment begins at the start of a line or behind a blank, outside quotes.
pub open spec fn comment_start(
    line: Text,
    i: int,
    single: bool,
    double: bool,
    escaped: bool,
    boundary: bool,
) -> int
    decreases line.len() - i,
{
    if !(0 <= i < line.len()) {
        line.len() as int
    } else {
        let c = line[i];
        if double {
            if escaped {
                comment_start(line, i + 1, single, true, false, boundary)
            } else if c == '\\' {
                comment_start(line, i + 1, single, true, true, boundary)
            } else {
                comment_start(line, i + 1, single, c != '"', false, boundary)
            }
        } else if single {
            comment_start(line, i + 1, c != '\'', false, escaped, boundary)
        } else if c == '#' && boundary {
            i
        } else if c == '"' {
            comment_start(line, i + 1, false, true, escaped, false)
        } else if c == '\'' {
            comment_start(line, i + 1, true, false, escaped, false)
        } else {
            comment_start(line, i + 1, false, false, escaped, c == ' ' || c == '\t')
        }
    }
}

/// `line` without its comment and the blanks in front of it.
pub open spec fn without_comment(line: Text) -> Text {
    let i = comment_start(line, 0, false, false, false, true);
    if i < line.len() {
        text::trim_end(line.take(i))
    } else {
        line
    }
}

proof fn lemma_comment_start(
    line: Text,
    i: int,
    single: bool,
    double: bool,
    escaped: bool,
    boundary: bool,
)
    requires
        0 <= i <= line.len(),
    ensures
        ({
            let r = comment_start(line, i, single, double, escaped, boundary);
            i <= r <= line.len() && (r < line.len() ==> line[r] == '#')
        }),
    decreases line.len() - i,
{
    if i < line.len() {
        let c = line[i];
        if double {
            if escaped {
                lemma_comment_start(line, i + 1, single, true, false, boundary);
            } else if c == '\\' {
                lemma_comment_start(line, i + 1, single, true, true, boundary);
            } else {
                lemma_comment_start(line, i + 1, single, c != '"', false, boundary);
            }
        } else if single {
            lemma_comment_start(line, i + 1, c != '\'', false, escaped, boundary);
        } else if c == '#' && boundary {
        } else if c == '"' {
            lemma_comment_start(line, i + 1, false, true, escaped, false);
        } else if c == '\'' {
            lemma_comment_start(line, i + 1, true, false, escaped, false);
        } else {
            lemma_comment_start(line, i + 1, false, false, escaped, c == ' ' || c == '\t');
        }
    }
}

/// In what stands in front of a comment no comment begins.
proof fn lemma_no_comment_in_front(
    line: Text,
    k: int,
    i: int,
    single: bool,
    double: bool,
    escaped: bool,
    boundary: bool,
)
    requires
        0 <= i <= k <= line.len(),
        k <= comment_start(line, i, single, double, escaped, boundary),
    ensures
        comment_start(line.take(k), i, single, double, escaped, boundary) == k,
    decreases k - i,
{
    if i < k {
        let c = line[i];
        assert(line.take(k)[i] == c);
        if double {
            if escaped {
                lemma_no_comment_in_front(line, k, i + 1, single, true, false, boundary);
            } else if c == '\\' {
                lemma_no_comment_in_front(line, k, i + 1, single, true, true, boundary);
            } else {
                lemma_no_comment_in_front(line, k, i + 1, single, c != '"', false, boundary);
            }
        } else if single {
            lemma_no_comment_in_front(line, k, i + 1, c != '\'', false, escaped, boundary);
        } else if c == '"' {
            lemma_no_comment_in_front(line, k, i + 1, false, true, escaped, false);
        } else if c == '\'' {
            lemma_no_comment_in_front(line, k, i + 1, true, false, escaped, false);
        } else {
            lemma_no_comment_in_front(
                line,
                k,
                i + 1,
                false,
                false,
                escaped,
                c == ' ' || c == '\t',
            );
        }
    }
}

/// A line is what is left of it without its comment and, behind that, nothing
/// or blanks and a comment. A line in which no `#` stands is left as it is, and
/// so is one from which the comment has been taken.
pub proof fn lemma_comment_taken_off(line: Text)
    ensures
        ({
            let left = without_comment(line);
            let rest = line.skip(left.len() as int);
            &&& left.len() <= line.len()
            &&& line == left + rest
            &&& rest.len() > 0 ==> text::trim_start(rest).len() > 0 && text::trim_start(rest)[0]
                == '#'
            &&& !line.contains('#') ==> left == line
            &&& without_comment(left) == left
        }),
{
    let i = comment_start(line, 0, false, false, false, true);
    lemma_comment_start(line, 0, false, false, false, true);
    let left = without_comment(line);
    if i < line.len() {
        let front = line.take(i);
        text::lemma_trimmed_end(front);
        let k = left.len() as int;
        assert(left =~= line.take(k));
        let rest = line.skip(k);
        assert forall|j: int| 0 <= j < i - k implies text::is_white(#[trigger] rest[j]) by {
            assert(rest[j] == front[k + j]);
        }
        assert(rest[i - k] == '#');
        text::lemma_blanks_in_front(rest, i - k);
        lemma_no_comment_in_front(line, k, 0, false, false, false, true);
        assert(line.contains('#'));
    } else {
        assert(line.skip(left.len() as int).len() == 0);
    }
    assert(line =~= left + line.skip(left.len() as int));
}

/// `line` without a carriage return at its end.
pub open spec fn without_return(line: Text) -> Text {
    if line.len() > 0 && line.last() == '\r' {
        line.drop_last()
    } else {
        line
    }
}

/// A line of a script file as the parser sees it.
pub open spec fn script_line(line: Text, first: bool) -> Text {
    let body = without_return(line);
    if first && text::starts_with(body, "#!"@) {
        Seq::empty()
    } else {
        without_comment(body)
    }
}

/// The lines of `s` from `i` on as the parser sees them.
pub open spec fn normalized_from(s: Text, i: int) -> Text
    decreases s.len() - i,
{
    if !(0 <= i < s.len()) {
        Seq::empty()
    } else {
        let e = text::find_from(s, i, '\n');
        proof {
            text::lemma_find_from(s, i, '\n');
        }
        let line = script_line(s.subrange(i, e), i == 0);
        if e < s.len() {
            line.push('\n') + normalized_from(s, e + 1)
        } else {
            line
        }
    }
}

/// A script file without its comments and its interpreter line.
pub open spec fn normalized(s: Text) -> Text {
    normalized_from(s, 0)
}

/// The script of a file.
pub open spec fn parse_file(file: Text) -> Result<AstModel, ErrModel> {
    let input = normalized(file);
    match parser_tokens(input) {
        Err(e) => Err(e),
        Ok(ts) => {
            let chunks = statements(ts, input);
            let len = text::byte_len(input) as usize;
            if chunks.len() == 0 {
                Err(
                    error_with(
                        Span { start: 0, end: len },
                        "empty .cue script"@,
                        ParseErrorKind::MissingArgument,
                        "add at least one top-level item"@,
                    ),
                )
            } else {
                script(chunks, len, input)
            }
        },
    }
}

// ── Laws of inputs ──

/// All pipelines of an argument are whole.
pub open spec fn argument_piped(arg: ArgModel) -> bool {
    arg matches ArgModel::Chain(c) ==> chain_piped(c)
}

/// All pipelines of a tree are whole.
pub open spec fn ast_piped(ast: AstModel) -> bool
    decreases ast,
{
    match ast {
        AstModel::Script { items, .. } => items_piped(items),
        AstModel::BareInput { argument, .. } => argument_piped(argument),
        AstModel::Command { argument, .. } => argument_piped(argument),
    }
}

pub open spec fn items_piped(items: Seq<ItemModel>) -> bool
    decreases items,
{
    items.len() == 0 || (items_piped(items.drop_last()) && ast_piped(*items.last().statement))
}

/// Where no token stands, no chain begins.
proof fn lemma_no_chain_outside(ts: Seq<SpannedModel>, pos: int, len: usize)
    requires
        !(0 <= pos <= ts.len()),
    ensures
        chain(ts, pos, len) is Err,
{
    assert(atom_words(ts, pos, Seq::empty()).0.len() == 0);
    assert(process(ts, pos, len) is Err);
    assert(pipeline(ts, pos, len) is Err);
    assert(job_expr(ts, pos, len) is Err);
    assert(parallel(ts, pos, len) is Err);
}

proof fn lemma_statement_piped(ts: Seq<SpannedModel>, len: usize, input: Text)
    ensures
        single_statement(ts, len, input) matches Ok(ast) ==> ast_piped(ast),
{
    match peek(ts, 0) {
        TokenModel::Command(name) => {
            if let Some(c) = find_spec(registry(), name) {
                if let Ok((params, p)) = optional_params(ts, 1, len, c) {
                    if 0 <= p <= ts.len() {
                        lemma_chain_sound(ts, p, len);
                    } else {
                        lemma_no_chain_outside(ts, p, len);
                    }
                }
            }
        },
        _ => {
            lemma_chain_sound(ts, 0, len);
        },
    }
}

proof fn lemma_items_piped(chunks: Seq<ChunkModel>, len: usize, input: Text)
    ensures
        items(chunks, len, input) matches Ok(done) ==> items_piped(done),
    decreases chunks.len(),
{
    if chunks.len() > 0 {
        lemma_items_piped(chunks.drop_last(), len, input);
        lemma_statement_piped(chunks.last().tokens, len, input);
        if let Ok(done) = items(chunks.drop_last(), len, input) {
            if let Ok(it) = item(chunks.last(), len, input) {
                assert(done.push(it).drop_last() =~= done);
            }
        }
    }
}

/// In whatever is parsed, a line or a file, all pipelines are whole: each has a
/// process, each process a word, and a pipe stands behind each process but the
/// last.
pub proof fn lemma_parsed_pipelines_whole(input: Text)
    ensures
        parse(input) matches Ok(ast) ==> ast_piped(ast),
        parse_file(input) matches Ok(ast) ==> ast_piped(ast),
{
    if let Ok(ts) = parser_tokens(input) {
        let chunks = statements(ts, input);
        let len = text::byte_len(input) as usize;
        lemma_items_piped(chunks, len, input);
        if chunks.len() == 1 {
            lemma_statement_piped(chunks[0].tokens, len, input);
        }
    }
    let file = normalized(input);
    if let Ok(ts) = parser_tokens(file) {
        lemma_items_piped(statements(ts, file), text::byte_len(file) as usize, file);
    }
}

} // verus!
