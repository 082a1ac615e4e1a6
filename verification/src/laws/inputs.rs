//! Inputs: what a line, several lines or a file mean as a whole.

use vstd::prelude::*;

use crate::text;
use crate::laws::commands::meant;
use crate::mode::Mode;
use crate::parser::ast::{AstModel, ItemModel};
use crate::parser::error::ErrModel;
use crate::parser::grammar::{
    items, normalized, parser_tokens, single_statement, statements, ChunkModel,
};
use crate::parser::resolved::{items_resolved, resolved, ResolvedModel};
use crate::parser::resolver::{file_meaning, meaning};
use crate::parser::token::SpannedModel;
use crate::text::Text;

verus! {

/// An input of one statement means what that statement means.
pub proof fn lemma_input_of_one_statement(input: Text, mode: Mode, ts: Seq<SpannedModel>)
    requires
        parser_tokens(input) == Ok::<Seq<SpannedModel>, ErrModel>(ts),
        statements(ts, input).len() == 1,
    ensures
        meaning(input, mode) == meant(
            statements(ts, input)[0].tokens,
            text::byte_len(input) as usize,
            input,
            mode,
        ),
{
    reveal(meant);
}

/// An input without a statement is refused in either mode, and a file without one too.
pub proof fn lemma_input_without_statements(input: Text, mode: Mode, ts: Seq<SpannedModel>)
    ensures
        parser_tokens(input) == Ok::<Seq<SpannedModel>, ErrModel>(ts) && statements(ts, input).len()
            == 0 ==> meaning(input, mode) is Err,
        parser_tokens(normalized(input)) == Ok::<Seq<SpannedModel>, ErrModel>(ts) && statements(
            ts,
            normalized(input),
        ).len() == 0 ==> file_meaning(input) is Err,
{
}

proof fn lemma_items(chunks: Seq<ChunkModel>, len: usize, input: Text, i: int)
    requires
        0 <= i < chunks.len(),
    ensures
        items(chunks, len, input) matches Ok(done) ==> done.len() == chunks.len() && done[i].source
            == chunks[i].source && single_statement(chunks[i].tokens, len, input) == Ok::<
            AstModel,
            ErrModel,
        >(*done[i].statement),
        single_statement(chunks[i].tokens, len, input) is Err ==> items(chunks, len, input) is Err,
    decreases chunks.len(),
{
    let front = chunks.drop_last();
    if i < front.len() {
        lemma_items(front, len, input, i);
        assert(front[i] == chunks[i]);
    } else if front.len() > 0 {
        lemma_items(front, len, input, 0);
    }
}

proof fn lemma_resolved_items(s: Seq<ItemModel>, mode: Mode, i: int)
    requires
        0 <= i < s.len(),
    ensures
        items_resolved(s, mode) matches Ok(done) ==> done.len() == s.len() && done[i].source
            == s[i].source && resolved(*s[i].statement, mode) == Ok::<ResolvedModel, ErrModel>(
            *done[i].command,
        ),
        resolved(*s[i].statement, mode) is Err ==> items_resolved(s, mode) is Err,
    decreases s.len(),
{
    let front = s.drop_last();
    if i < front.len() {
        lemma_resolved_items(front, mode, i);
        assert(front[i] == s[i]);
    } else if front.len() > 0 {
        lemma_resolved_items(front, mode, 0);
    }
}

/// An input of several statements means a script of them: each with its own text and its own
/// meaning, in their order. One that means nothing makes the whole input mean nothing.
pub proof fn lemma_input_of_several_statements(
    input: Text,
    mode: Mode,
    ts: Seq<SpannedModel>,
    i: int,
)
    requires
        parser_tokens(input) == Ok::<Seq<SpannedModel>, ErrModel>(ts),
        statements(ts, input).len() > 1,
        0 <= i < statements(ts, input).len(),
    ensures
        ({
            let chunks = statements(ts, input);
            let len = text::byte_len(input) as usize;
            &&& meaning(input, mode) matches Ok(c) ==> (c matches ResolvedModel::Script {
                mode: in_mode,
                items: done,
            } && in_mode == mode && done.len() == chunks.len() && done[i].source == chunks[i].source
                && meant(chunks[i].tokens, len, input, mode) == Ok::<ResolvedModel, ErrModel>(
                *done[i].command,
            ))
            &&& meant(chunks[i].tokens, len, input, mode) is Err ==> meaning(input, mode) is Err
        }),
{
    reveal(meant);
    let chunks = statements(ts, input);
    let len = text::byte_len(input) as usize;
    lemma_items(chunks, len, input, i);
    if let Ok(done) = items(chunks, len, input) {
        lemma_resolved_items(done, mode, i);
    }
}

/// A file is a script even if it holds one statement, and it is read in JOB mode.
pub proof fn lemma_file_is_a_script(input: Text, ts: Seq<SpannedModel>, i: int)
    requires
        parser_tokens(normalized(input)) == Ok::<Seq<SpannedModel>, ErrModel>(ts),
        0 <= i < statements(ts, normalized(input)).len(),
    ensures
        ({
            let lines = normalized(input);
            let chunks = statements(ts, lines);
            let len = text::byte_len(lines) as usize;
            file_meaning(input) matches Ok(c) ==> (c matches ResolvedModel::Script {
                mode,
                items: done,
            } && mode is Job && done.len() == chunks.len() && done[i].source == chunks[i].source
                && meant(chunks[i].tokens, len, lines, Mode::Job) == Ok::<ResolvedModel, ErrModel>(
                *done[i].command,
            ))
        }),
{
    reveal(meant);
    let lines = normalized(input);
    let chunks = statements(ts, lines);
    let len = text::byte_len(lines) as usize;
    lemma_items(chunks, len, lines, i);
    if let Ok(done) = items(chunks, len, lines) {
        lemma_resolved_items(done, Mode::Job, i);
    }
}

} // verus!
