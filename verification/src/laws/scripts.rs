//! Scripts: where a statement ends, and what a file leaves out.

use vstd::prelude::*;

use crate::text;
use crate::parser::grammar::{
    comment_start, is_operator, next_content, normalized, normalized_from, parallel_op, pipe_op,
    push_chunk, script_line, serial_op, split_from, splits_at, statements, without_comment,
    without_return, ChunkModel,
};
use crate::parser::token::{SpannedModel, TokenModel};
use crate::text::Text;

verus! {

// ── Statements ──

/// A line goes on behind and in front of just those tokens that join two parts of a chain.
pub proof fn lemma_tokens_that_join(t: TokenModel)
    ensures
        is_operator(t) <==> serial_op(t) is Some || parallel_op(t) is Some || pipe_op(t) is Some
            || t is JobAnd || t is JobOr,
{
}

/// A token that neither ends a line nor opens or closes anything.
pub open spec fn flat(t: TokenModel) -> bool {
    !(t is Newline) && !(t is Eof) && !(t is ModeParenOpen) && !(t is ModeParenClose)
        && !(t is GroupOpen) && !(t is GroupClose)
}

proof fn lemma_run_taken(
    ts: Seq<SpannedModel>,
    input: Text,
    i: int,
    e: int,
    chunks: Seq<ChunkModel>,
    current: Seq<SpannedModel>,
    depth: nat,
)
    requires
        0 <= i <= e <= ts.len(),
        forall|j: int| i <= j < e ==> flat((#[trigger] ts[j]).token),
    ensures
        split_from(ts, input, i, chunks, current, depth) == split_from(
            ts,
            input,
            e,
            chunks,
            current + ts.subrange(i, e),
            depth,
        ),
    decreases e - i,
{
    if i < e {
        assert(flat(ts[i].token));
        lemma_run_taken(ts, input, i + 1, e, chunks, current.push(ts[i]), depth);
        assert(current.push(ts[i]) + ts.subrange(i + 1, e) =~= current + ts.subrange(i, e));
    } else {
        assert(current + ts.subrange(i, e) =~= current);
    }
}

/// The text that tokens cover.
pub open spec fn covered(run: Seq<SpannedModel>, input: Text) -> Text {
    text::trim(text::byte_slice(input, run[0].start, run.last().end))
}

/// The tokens of one line are one statement, with the text that they cover.
pub proof fn lemma_one_line_one_statement(ts: Seq<SpannedModel>, input: Text)
    requires
        ts.len() > 0,
        forall|j: int| 0 <= j < ts.len() ==> flat((#[trigger] ts[j]).token),
        covered(ts, input).len() > 0,
    ensures
        statements(ts, input).len() == 1,
        statements(ts, input)[0].tokens == ts,
        statements(ts, input)[0].source == covered(ts, input),
{
    let n = ts.len() as int;
    lemma_run_taken(ts, input, 0, n, Seq::empty(), Seq::empty(), 0);
    assert(Seq::<SpannedModel>::empty() + ts.subrange(0, n) =~= ts);
}

/// Two lines are two statements, in their order, unless an operator stands at the end of the
/// first or at the start of the second; they are one then.
pub proof fn lemma_two_lines(
    a: Seq<SpannedModel>,
    nl: SpannedModel,
    b: Seq<SpannedModel>,
    input: Text,
)
    requires
        a.len() > 0,
        b.len() > 0,
        nl.token is Newline,
        forall|j: int| 0 <= j < a.len() ==> flat((#[trigger] a[j]).token),
        forall|j: int| 0 <= j < b.len() ==> flat((#[trigger] b[j]).token),
        covered(a, input).len() > 0,
        covered(b, input).len() > 0,
        covered(a + b, input).len() > 0,
    ensures
        ({
            let r = statements(a + seq![nl] + b, input);
            if is_operator(a.last().token) || is_operator(b[0].token) {
                r.len() == 1 && r[0].tokens == a + b
            } else {
                r.len() == 2 && r[0].tokens == a && r[0].source == covered(a, input) && r[1].tokens
                    == b && r[1].source == covered(b, input)
            }
        }),
{
    let ts = a + seq![nl] + b;
    let n = a.len() as int;
    let none = Seq::<SpannedModel>::empty();
    assert forall|j: int| 0 <= j < n implies flat((#[trigger] ts[j]).token) by {
        assert(ts[j] == a[j]);
    }
    lemma_run_taken(ts, input, 0, n, Seq::empty(), none, 0);
    assert(none + ts.subrange(0, n) =~= a);
    assert(ts[n] == nl);
    assert(ts[n + 1] == b[0]);
    assert(flat(b[0].token));
    assert(next_content(ts, n + 1) == Some(b[0].token));
    assert forall|j: int| n + 1 <= j < ts.len() implies flat((#[trigger] ts[j]).token) by {
        assert(ts[j] == b[j - n - 1]);
    }
    let e = ts.len() as int;
    if is_operator(a.last().token) || is_operator(b[0].token) {
        lemma_run_taken(ts, input, n + 1, e, Seq::empty(), a, 0);
        assert(a + ts.subrange(n + 1, e) =~= a + b);
        assert((a + b)[0] == a[0]);
    } else {
        let first = push_chunk(Seq::empty(), a, input);
        lemma_run_taken(ts, input, n + 1, e, first, none, 0);
        assert(none + ts.subrange(n + 1, e) =~= b);
        assert(split_from(ts, input, n, Seq::empty(), a, 0) == split_from(
            ts,
            input,
            n + 1,
            first,
            none,
            0,
        ));
    }
}

/// Within parentheses a line break ends nothing.
pub proof fn lemma_breaks_in_parentheses(
    ts: Seq<SpannedModel>,
    i: int,
    depth: nat,
    current: Seq<SpannedModel>,
)
    requires
        current.len() > 0,
        depth > 0,
    ensures
        !splits_at(ts, i, depth, current),
{
}

// ── Comments ──

/// A character that neither quotes nor begins a comment.
pub open spec fn ordinary(c: char) -> bool {
    c != '"' && c != '\'' && c != '#'
}

proof fn lemma_no_comment_before(line: Text, i: int, e: int, boundary: bool)
    requires
        0 <= i <= e <= line.len(),
        forall|j: int| i <= j < e ==> ordinary(#[trigger] line[j]),
    ensures
        comment_start(line, i, false, false, false, boundary) == comment_start(
            line,
            e,
            false,
            false,
            false,
            if i < e {
                line[e - 1] == ' ' || line[e - 1] == '\t'
            } else {
                boundary
            },
        ),
    decreases e - i,
{
    if i < e {
        assert(ordinary(line[i]));
        lemma_no_comment_before(line, i + 1, e, line[i] == ' ' || line[i] == '\t');
    }
}

/// A comment begins at the start of a line or behind a blank and takes the rest of the line;
/// a `#` inside a word is part of it.
pub proof fn lemma_comments(a: Text, rest: Text)
    requires
        forall|j: int| 0 <= j < a.len() ==> ordinary(#[trigger] a[j]),
    ensures
        without_comment(seq!['#'] + rest).len() == 0,
        a.len() > 0 && (a.last() == ' ' || a.last() == '\t') ==> without_comment(
            a + seq!['#'] + rest,
        ) == text::trim_end(a),
        a.len() > 0 && a.last() != ' ' && a.last() != '\t' && (forall|j: int|
            0 <= j < rest.len() ==> ordinary(#[trigger] rest[j])) ==> without_comment(
            a + seq!['#'] + rest,
        ) == a + seq!['#'] + rest,
{
    let c = seq!['#'] + rest;
    assert(c[0] == '#');
    assert(comment_start(c, 0, false, false, false, true) == 0);
    assert(c.take(0).len() == 0);
    let line = a + seq!['#'] + rest;
    let n = a.len() as int;
    assert forall|j: int| 0 <= j < n implies ordinary(#[trigger] line[j]) by {
        assert(line[j] == a[j]);
    }
    lemma_no_comment_before(line, 0, n, true);
    assert(line[n] == '#');
    assert(line.take(n) =~= a);
    if n > 0 {
        assert(line[n - 1] == a.last());
        if a.last() != ' ' && a.last() != '\t' && (forall|j: int|
            0 <= j < rest.len() ==> ordinary(#[trigger] rest[j])) {
            assert forall|j: int| n + 1 <= j < line.len() implies ordinary(#[trigger] line[j]) by {
                assert(line[j] == rest[j - n - 1]);
            }
            lemma_no_comment_before(line, n + 1, line.len() as int, false);
        }
    }
}

proof fn lemma_single_quoted(line: Text, i: int, e: int)
    requires
        0 <= i <= e < line.len(),
        line[e] == '\'',
        forall|j: int| i <= j < e ==> line[j] != '\'',
    ensures
        comment_start(line, i, true, false, false, false) == comment_start(
            line,
            e + 1,
            false,
            false,
            false,
            false,
        ),
    decreases e - i,
{
    if i < e {
        lemma_single_quoted(line, i + 1, e);
    }
}

proof fn lemma_double_quoted(line: Text, i: int, e: int)
    requires
        0 <= i <= e < line.len(),
        line[e] == '"',
        forall|j: int| i <= j < e ==> line[j] != '"' && line[j] != '\\',
    ensures
        comment_start(line, i, false, true, false, false) == comment_start(
            line,
            e + 1,
            false,
            false,
            false,
            false,
        ),
    decreases e - i,
{
    if i < e {
        lemma_double_quoted(line, i + 1, e);
    }
}

/// Within quotes nothing is a comment.
pub proof fn lemma_no_comments_in_quotes(q: Text)
    ensures
        !q.contains('\'') ==> without_comment(seq!['\''] + q + seq!['\'']) == seq!['\''] + q
            + seq!['\''],
        !q.contains('"') && !q.contains('\\') ==> without_comment(seq!['"'] + q + seq!['"'])
            == seq!['"'] + q + seq!['"'],
{
    let n = q.len() as int;
    let s = seq!['\''] + q + seq!['\''];
    assert(s[0] == '\'' && s[n + 1] == '\'');
    if !q.contains('\'') {
        assert forall|j: int| 1 <= j < n + 1 implies s[j] != '\'' by {
            assert(s[j] == q[j - 1]);
            assert(q.contains(q[j - 1]));
        }
        lemma_single_quoted(s, 1, n + 1);
    }
    let d = seq!['"'] + q + seq!['"'];
    assert(d[0] == '"' && d[n + 1] == '"');
    if !q.contains('"') && !q.contains('\\') {
        assert forall|j: int| 1 <= j < n + 1 implies d[j] != '"' && d[j] != '\\' by {
            assert(d[j] == q[j - 1]);
            assert(q.contains(q[j - 1]));
        }
        lemma_double_quoted(d, 1, n + 1);
    }
}

// ── Files ──

/// The interpreter line counts only as the first, and a carriage return at the end of a line
/// never does.
pub proof fn lemma_lines_of_a_file(line: Text)
    ensures
        text::starts_with(without_return(line), "#!"@) ==> script_line(line, true).len() == 0,
        script_line(line, false) == without_comment(without_return(line)),
        !text::starts_with(without_return(line), "#!"@) ==> script_line(line, true) == script_line(
            line,
            false,
        ),
        without_return(line.push('\r')) == line,
        line.len() > 0 && line.last() != '\r' ==> without_return(line) == line,
{
    assert(line.push('\r').drop_last() =~= line);
}

/// The lines of a file, each as the parser sees it.
pub open spec fn lines_seen(lines: Seq<Text>, first: bool) -> Text
    decreases lines.len(),
{
    if lines.len() == 0 {
        Seq::empty()
    } else {
        script_line(lines[0], first).push('\n') + lines_seen(lines.drop_first(), false)
    }
}

/// Lines, each with its line feed.
pub open spec fn lines_written(lines: Seq<Text>) -> Text
    decreases lines.len(),
{
    if lines.len() == 0 {
        Seq::empty()
    } else {
        lines[0].push('\n') + lines_written(lines.drop_first())
    }
}

proof fn lemma_find_feed(pre: Text, line: Text, rest: Text, i: int)
    requires
        !line.contains('\n'),
        pre.len() <= i <= pre.len() + line.len(),
    ensures
        text::find_from(pre + line.push('\n') + rest, i, '\n') == pre.len() + line.len(),
    decreases pre.len() + line.len() - i,
{
    let s = pre + line.push('\n') + rest;
    let e = pre.len() + line.len();
    if i < e {
        assert(s[i] == line[i - pre.len()]);
        assert(line.contains(line[i - pre.len()]));
        lemma_find_feed(pre, line, rest, i + 1);
    } else {
        assert(s[e as int] == '\n');
    }
}

proof fn lemma_lines_from(pre: Text, lines: Seq<Text>)
    requires
        forall|i: int| 0 <= i < lines.len() ==> !(#[trigger] lines[i]).contains('\n'),
    ensures
        normalized_from(pre + lines_written(lines), pre.len() as int) == lines_seen(
            lines,
            pre.len() == 0,
        ),
    decreases lines.len(),
{
    let s = pre + lines_written(lines);
    if lines.len() == 0 {
        assert(s =~= pre);
    } else {
        let line = lines[0];
        let others = lines.drop_first();
        assert forall|i: int| 0 <= i < others.len() implies !(#[trigger] others[i]).contains('\n') by {
            assert(others[i] == lines[i + 1]);
        }
        let rest = lines_written(others);
        assert(s =~= pre + line.push('\n') + rest);
        lemma_find_feed(pre, line, rest, pre.len() as int);
        let e = pre.len() + line.len();
        assert(s.subrange(pre.len() as int, e as int) =~= line);
        let next = pre + line.push('\n');
        assert(s =~= next + rest);
        lemma_lines_from(next, others);
        assert(next.len() == e + 1);
    }
}

/// A file is read line by line, and every line stays a line of its own.
pub proof fn lemma_file_read_by_lines(lines: Seq<Text>)
    requires
        forall|i: int| 0 <= i < lines.len() ==> !(#[trigger] lines[i]).contains('\n'),
    ensures
        normalized(lines_written(lines)) == lines_seen(lines, true),
{
    lemma_lines_from(Seq::empty(), lines);
    assert(Seq::<char>::empty() + lines_written(lines) =~= lines_written(lines));
}

} // verus!
