//! Tokens: each is spelled as it stands in the input.

use vstd::prelude::*;

use crate::text;
use crate::parser::token::{IdKind, SpannedModel, TokenModel, ValueModel};
use crate::parser::tokenizer::{
    blank_end, id_of_word, is_name_char, lemma_blank_end, lemma_name_end, lemma_scan_double,
    lemma_scan_word, lemma_step_progress, lex, name_end, offset, operator_at, scan_double,
    scan_word, step, step_normal, token_models, word_stops, word_token, LexError, LexMode, LexStep,
    ScannedWord,
};
use crate::text::Text;

verus! {

/// No quotes stand in the characters.
pub open spec fn unquoted(w: Text) -> bool {
    !w.contains('\'') && !w.contains('"')
}

/// How a token is written.
pub open spec fn spelled(t: TokenModel, w: Text) -> bool {
    match t {
        TokenModel::Colon => w == ":"@,
        TokenModel::Command(name) => w == ":"@ + name && name.len() > 0,
        TokenModel::ModeParenOpen => w == "("@,
        TokenModel::ModeParenClose => w == ")"@,
        TokenModel::ParamEq => w == "="@,
        TokenModel::ParamValue(ValueModel::Bool(true)) => w == "true"@,
        TokenModel::ParamValue(ValueModel::Bool(false)) => w == "false"@,
        TokenModel::ParamValue(ValueModel::Str(v)) => unquoted(w) ==> w == v && v != "true"@ && v
            != "false"@,
        TokenModel::Comma => w == ","@,
        TokenModel::SerialThen => w == "->"@,
        TokenModel::SerialAlways => w == "~>"@,
        TokenModel::ParallelAll => w == "|||"@,
        TokenModel::ParallelRace => w == "|?|"@,
        TokenModel::JobAnd => w == "&&"@,
        TokenModel::JobOr => w == "||"@,
        TokenModel::PipeStdout => w == "|>"@,
        TokenModel::PipeAll => w == "|&>"@,
        TokenModel::PipeStderr => w == "|!>"@,
        TokenModel::GroupOpen => w == "("@,
        TokenModel::GroupClose => w == ")"@,
        TokenModel::Word(v) => unquoted(w) ==> w == v,
        TokenModel::IdRef(IdKind::Job, n) => w == "J"@ + text::decimal(n as nat),
        TokenModel::IdRef(IdKind::Cron, n) => w == "C"@ + text::decimal(n as nat),
        TokenModel::Whitespace(v) => w == v && v.len() > 0 && forall|i: int|
            0 <= i < v.len() ==> text::is_white(#[trigger] v[i]) && v[i] != '\n',
        TokenModel::Newline => w == "\n"@,
        TokenModel::Eof => w.len() == 0,
    }
}

/// Digits without a leading zero are the decimal form of their number.
pub proof fn lemma_digits_are_decimal(d: Text)
    requires
        text::all_digits(d),
        d[0] != '0' || d.len() == 1,
    ensures
        text::decimal(text::digits_value(d)) == d,
        d[0] != '0' ==> text::digits_value(d) > 0,
    decreases d.len(),
{
    let v = text::digits_value(d);
    let front = d.drop_last();
    assert(text::is_digit(d[d.len() - 1]));
    let digit = (d.last() as nat - '0' as nat) as nat;
    assert(digit < 10);
    assert(text::digit_char(digit) == d.last());
    assert(v == text::digits_value(front) * 10 + digit);
    if d.len() == 1 {
        assert(front =~= Seq::<char>::empty());
        assert(v == digit);
        assert(text::decimal(v) =~= d);
    } else {
        assert forall|i: int| 0 <= i < front.len() implies text::is_digit(#[trigger] front[i]) by {
            assert(front[i] == d[i]);
        }
        assert(front[0] == d[0]);
        lemma_digits_are_decimal(front);
        let h = text::digits_value(front);
        assert(v / 10 == h && v % 10 == digit && v >= 10);
        assert(text::decimal(v) =~= d);
    }
}

proof fn lemma_id_spelled(w: Text)
    ensures
        id_of_word(w) matches Some((k, n)) ==> w == match k {
            IdKind::Job => "J"@,
            IdKind::Cron => "C"@,
        } + text::decimal(n as nat),
{
    reveal_strlit("J");
    reveal_strlit("C");
    if let Some((k, n)) = id_of_word(w) {
        let d = w.skip(1);
        assert(d[0] == w[1]);
        lemma_digits_are_decimal(d);
        let letter = match k {
            IdKind::Job => "J"@,
            IdKind::Cron => "C"@,
        };
        assert(letter[0] == w[0]);
        assert(w =~= letter + d);
    }
}

proof fn lemma_word_plain(s: Text, i: int, params: bool, acc: Text, quoted: bool)
    requires
        0 <= i <= s.len(),
    ensures
        scan_word(s, i, params, acc, quoted) matches Ok(w) ==> {
            &&& unquoted(s.subrange(i, w.end)) ==> w.text == acc + s.subrange(i, w.end) && w.quoted
                == quoted
            &&& !unquoted(s.subrange(i, w.end)) || quoted ==> w.quoted
        },
    decreases s.len() - i,
{
    lemma_scan_word(s, i, params, acc, quoted);
    if i < s.len() && !word_stops(s, i, params) {
        if s[i] == '\'' {
            let q = text::find_from(s, i + 1, '\'');
            text::lemma_find_from(s, i + 1, '\'');
            if q < s.len() {
                lemma_scan_word(s, q + 1, params, acc + s.subrange(i + 1, q), true);
                lemma_word_plain(s, q + 1, params, acc + s.subrange(i + 1, q), true);
                if let Ok(w) = scan_word(s, i, params, acc, quoted) {
                    assert(s.subrange(i, w.end)[0] == '\'');
                    assert(s.subrange(i, w.end).contains('\''));
                }
            }
        } else if s[i] == '"' {
            lemma_scan_double(s, i + 1, Seq::empty());
            if let Some((t, e)) = scan_double(s, i + 1, Seq::empty()) {
                lemma_scan_word(s, e, params, acc + t, true);
                lemma_word_plain(s, e, params, acc + t, true);
                if let Ok(w) = scan_word(s, i, params, acc, quoted) {
                    assert(s.subrange(i, w.end)[0] == '"');
                    assert(s.subrange(i, w.end).contains('"'));
                }
            }
        } else if !params && text::has_at(s, i, "->"@) {
        } else if !params && text::has_at(s, i, "~>"@) {
        } else {
            lemma_scan_word(s, i + 1, params, acc.push(s[i]), quoted);
            lemma_word_plain(s, i + 1, params, acc.push(s[i]), quoted);
            if let Ok(w) = scan_word(s, i, params, acc, quoted) {
                let whole = s.subrange(i, w.end);
                let rest = s.subrange(i + 1, w.end);
                assert(whole =~= seq![s[i]] + rest);
                assert forall|c: char| rest.contains(c) implies whole.contains(c) by {
                    let k = rest.index_of(c);
                    assert(whole[k + 1] == c);
                }
                assert forall|c: char| c != s[i] && whole.contains(c) implies rest.contains(c) by {
                    let k = whole.index_of(c);
                    assert(rest[k - 1] == c);
                }
                assert(acc.push(s[i]) + rest =~= acc + whole);
            }
        }
    } else {
        assert(acc + s.subrange(i, i) =~= acc);
    }
}

proof fn lemma_blanks(s: Text, i: int)
    requires
        0 <= i <= s.len(),
    ensures
        forall|j: int| i <= j < blank_end(s, i) ==> text::is_white(#[trigger] s[j]) && s[j] != '\n',
    decreases s.len() - i,
{
    if i < s.len() && text::is_white(s[i]) && s[i] != '\n' {
        lemma_blanks(s, i + 1);
    }
}

proof fn lemma_blank_token(s: Text, i: int)
    requires
        0 <= i < s.len(),
        text::is_white(s[i]),
        s[i] != '\n',
    ensures
        spelled(
            TokenModel::Whitespace(s.subrange(i, blank_end(s, i))),
            s.subrange(i, blank_end(s, i)),
        ),
{
    lemma_blank_end(s, i);
    lemma_blank_end(s, i + 1);
    lemma_blanks(s, i);
    let e = blank_end(s, i);
    let v = s.subrange(i, e);
    assert forall|j: int| 0 <= j < v.len() implies text::is_white(#[trigger] v[j]) && v[j]
        != '\n' by {
        assert(v[j] == s[i + j]);
    }
}

/// A token is spelled as the characters that it takes.
pub proof fn lemma_token_spelled(s: Text, i: int, mode: LexMode)
    requires
        0 <= i < s.len(),
    ensures
        step(s, i, mode) matches Ok(t) ==> i < t.end <= s.len() && spelled(
            t.token,
            s.subrange(i, t.end),
        ),
{
    lemma_step_progress(s, i, mode);
    reveal_strlit(":");
    reveal_strlit("(");
    reveal_strlit(")");
    reveal_strlit("=");
    reveal_strlit(",");
    reveal_strlit("\n");
    reveal_strlit("|||");
    reveal_strlit("|?|");
    reveal_strlit("|&>");
    reveal_strlit("|!>");
    reveal_strlit("|>");
    reveal_strlit("||");
    reveal_strlit("&&");
    reveal_strlit("->");
    reveal_strlit("~>");
    if let Ok(t) = step(s, i, mode) {
        let w = s.subrange(i, t.end);
        assert(s.subrange(i, i + 1) =~= seq![s[i]]);
        assert(":"@ =~= seq![':']);
        assert("("@ =~= seq!['(']);
        assert(")"@ =~= seq![')']);
        assert("="@ =~= seq!['=']);
        assert(","@ =~= seq![',']);
        assert("\n"@ =~= seq!['\n']);
        lemma_scan_word(s, i, true, Seq::empty(), false);
        lemma_scan_word(s, i, false, Seq::empty(), false);
        lemma_word_plain(s, i, true, Seq::empty(), false);
        lemma_word_plain(s, i, false, Seq::empty(), false);
        assert(Seq::<char>::empty() + w =~= w);
        lemma_id_spelled(w);
        if mode is Params {
            if s[i] == ')' || s[i] == ',' || s[i] == '=' || s[i] == '\n' {
            } else if text::is_white(s[i]) {
                lemma_blank_token(s, i);
            } else if let Ok(word) = scan_word(s, i, true, Seq::empty(), false) {
                assert(t.end == word.end);
                if !word.quoted {
                    assert(unquoted(w));
                }
            }
        } else if mode is AfterCommand && s[i] == '(' {
        } else if s[i] == '\n' {
        } else if text::is_white(s[i]) {
            lemma_blank_token(s, i);
        } else if s[i] == ':' && i + 1 < s.len() && is_name_char(s[i + 1]) {
            lemma_name_end(s, i + 1);
            lemma_name_end(s, i + 2);
            let e = name_end(s, i + 1);
            assert(w =~= ":"@ + s.subrange(i + 1, e));
        } else if s[i] == ':' && (i + 1 >= s.len() || text::is_white(s[i + 1])) {
        } else if s[i] == '(' || s[i] == ')' {
        } else if operator_at(s, i) is Some {
        } else if let Ok(word) = scan_word(s, i, false, Seq::empty(), false) {
            assert(t.end == word.end);
            if !word.quoted {
                assert(unquoted(w));
            }
        }
    }
}

/// Each token is spelled as the part of the input that it covers.
pub open spec fn all_spelled(ts: Seq<SpannedModel>, s: Text) -> bool {
    forall|k: int|
        0 <= k < ts.len() ==> spelled(
            (#[trigger] ts[k]).token,
            text::byte_slice(s, ts[k].start, ts[k].end),
        )
}

proof fn lemma_slice(s: Text, i: int, e: int)
    requires
        0 <= i <= e <= s.len(),
    ensures
        text::byte_slice(s, offset(s, i), offset(s, e)) == s.subrange(i, e),
{
    text::lemma_char_at_byte_of_prefix(s, i);
    text::lemma_char_at_byte_of_prefix(s, e);
}

proof fn lemma_lex_spelled(s: Text, i: int, mode: LexMode, acc: Seq<SpannedModel>)
    requires
        0 <= i <= s.len(),
        all_spelled(acc, s),
    ensures
        lex(s, i, mode, acc) matches Ok(ts) ==> all_spelled(ts, s),
    decreases s.len() - i,
{
    if i < s.len() {
        lemma_token_spelled(s, i, mode);
        lemma_step_progress(s, i, mode);
        if let Ok(t) = step(s, i, mode) {
            let next = SpannedModel { token: t.token, start: offset(s, i), end: offset(s, t.end) };
            lemma_slice(s, i, t.end);
            let more = acc.push(next);
            assert forall|k: int| 0 <= k < more.len() implies spelled(
                (#[trigger] more[k]).token,
                text::byte_slice(s, more[k].start, more[k].end),
            ) by {
                if k < acc.len() {
                    assert(more[k] == acc[k]);
                }
            }
            lemma_lex_spelled(s, t.end, t.mode, more);
        }
    } else {
        let n = text::byte_len(s) as int;
        let eof = SpannedModel { token: TokenModel::Eof, start: n, end: n };
        let more = acc.push(eof);
        assert(s.take(i) =~= s);
        lemma_slice(s, i, i);
        assert forall|k: int| 0 <= k < more.len() implies spelled(
            (#[trigger] more[k]).token,
            text::byte_slice(s, more[k].start, more[k].end),
        ) by {
            if k < acc.len() {
                assert(more[k] == acc[k]);
            }
        }
    }
}

/// Every token of an input is spelled as the part of the input that it covers: an
/// operator is the operator that is written there, a word without quotes is the word
/// that is written there, and an ID is its letter and its number.
pub proof fn lemma_input_spelled(s: Text)
    ensures
        token_models(s) matches Ok(ts) ==> all_spelled(ts, s),
{
    lemma_lex_spelled(s, 0, LexMode::Normal, Seq::empty());
}

// ── What is written is recognized ──

/// `op` is written at `i`, with white space or an end on both sides.
pub open spec fn set_off(s: Text, i: int, op: Text) -> bool {
    &&& text::has_at(s, i, op)
    &&& i == 0 || text::is_white(s[i - 1])
    &&& i + op.len() == s.len() || text::is_white(s[i + op.len()])
}

pub open spec fn taken(s: Text, i: int, token: TokenModel, n: int) -> bool {
    step_normal(s, i) == Ok::<LexStep, LexError>(
        LexStep { token, end: i + n, mode: LexMode::Normal },
    )
}

/// An operator that is set off by white space is that operator.
pub proof fn lemma_operator_recognized(s: Text, i: int)
    requires
        0 <= i < s.len(),
    ensures
        set_off(s, i, "->"@) ==> taken(s, i, TokenModel::SerialThen, 2),
        set_off(s, i, "~>"@) ==> taken(s, i, TokenModel::SerialAlways, 2),
        set_off(s, i, "|||"@) ==> taken(s, i, TokenModel::ParallelAll, 3),
        set_off(s, i, "|?|"@) ==> taken(s, i, TokenModel::ParallelRace, 3),
        set_off(s, i, "&&"@) ==> taken(s, i, TokenModel::JobAnd, 2),
        set_off(s, i, "||"@) ==> taken(s, i, TokenModel::JobOr, 2),
        set_off(s, i, "|>"@) ==> taken(s, i, TokenModel::PipeStdout, 2),
        set_off(s, i, "|&>"@) ==> taken(s, i, TokenModel::PipeAll, 3),
        set_off(s, i, "|!>"@) ==> taken(s, i, TokenModel::PipeStderr, 3),
{
    reveal_strlit("|||");
    reveal_strlit("|?|");
    reveal_strlit("|&>");
    reveal_strlit("|!>");
    reveal_strlit("|>");
    reveal_strlit("||");
    reveal_strlit("&&");
    reveal_strlit("->");
    reveal_strlit("~>");
    assert("|||"@ =~= seq!['|', '|', '|']);
    assert("|?|"@ =~= seq!['|', '?', '|']);
    assert("|&>"@ =~= seq!['|', '&', '>']);
    assert("|!>"@ =~= seq!['|', '!', '>']);
    assert("|>"@ =~= seq!['|', '>']);
    assert("||"@ =~= seq!['|', '|']);
    assert("&&"@ =~= seq!['&', '&']);
    assert("->"@ =~= seq!['-', '>']);
    assert("~>"@ =~= seq!['~', '>']);
    if i + 2 <= s.len() {
        let two = s.subrange(i, i + 2);
        assert(two[0] == s[i] && two[1] == s[i + 1]);
    }
    if i + 3 <= s.len() {
        let three = s.subrange(i, i + 3);
        assert(three[0] == s[i] && three[1] == s[i + 1] && three[2] == s[i + 2]);
    }
    let ops = seq![
        "->"@,
        "~>"@,
        "|||"@,
        "|?|"@,
        "&&"@,
        "||"@,
        "|>"@,
        "|&>"@,
        "|!>"@,
    ];
    assert forall|k: int| 0 <= k < 9 && text::has_at(s, i, #[trigger] ops[k]) implies s[i]
        == ops[k][0] && s[i + 1] == ops[k][1] && (ops[k].len() == 3 ==> s[i + 2] == ops[k][2]) by {
        assert(s.subrange(i, i + ops[k].len())[0] == ops[k][0]);
        assert(s.subrange(i, i + ops[k].len())[1] == ops[k][1]);
        if ops[k].len() == 3 {
            assert(s.subrange(i, i + ops[k].len())[2] == ops[k][2]);
        }
    }
    assert(ops[0] == "->"@ && ops[1] == "~>"@ && ops[2] == "|||"@ && ops[3] == "|?|"@ && ops[4]
        == "&&"@ && ops[5] == "||"@ && ops[6] == "|>"@ && ops[7] == "|&>"@ && ops[8] == "|!>"@);
}

/// An unquoted word that is written as an ID is that ID, and no other word is one.
pub proof fn lemma_id_recognized(n: u32, end: int)
    ensures
        word_token(
            ScannedWord { text: "J"@ + text::decimal(n as nat), end, quoted: false },
        ) == TokenModel::IdRef(IdKind::Job, n),
        word_token(
            ScannedWord { text: "C"@ + text::decimal(n as nat), end, quoted: false },
        ) == TokenModel::IdRef(IdKind::Cron, n),
{
    reveal_strlit("J");
    reveal_strlit("C");
    let d = text::decimal(n as nat);
    text::lemma_decimal_read_back(n as nat, u32::MAX as nat);
    lemma_no_leading_zero(n as nat);
    let j = "J"@ + d;
    let c = "C"@ + d;
    assert(j.skip(1) =~= d && c.skip(1) =~= d);
    assert(j[0] == 'J' && c[0] == 'C' && j[1] == d[0] && c[1] == d[0]);
}

proof fn lemma_no_leading_zero(n: nat)
    ensures
        text::decimal(n).len() > 0,
        text::decimal(n)[0] != '0' || text::decimal(n).len() == 1,
        n > 0 ==> text::decimal(n)[0] != '0',
    decreases n,
{
    if n >= 10 {
        lemma_no_leading_zero(n / 10);
        assert(text::decimal(n)[0] == text::decimal(n / 10)[0]);
    }
}

// ── Quotes ──

/// A text in double quotes, with a backslash before each quote and each backslash.
pub open spec fn escaped(t: Text) -> Text
    decreases t.len(),
{
    if t.len() == 0 {
        Seq::empty()
    } else {
        (if t[0] == '"' || t[0] == '\\' {
            seq!['\\', t[0]]
        } else {
            seq![t[0]]
        }) + escaped(t.drop_first())
    }
}

proof fn lemma_escaped_read(s: Text, i: int, t: Text, acc: Text)
    requires
        0 <= i,
        i + escaped(t).len() < s.len(),
        s.subrange(i, i + escaped(t).len()) == escaped(t),
        s[i + escaped(t).len()] == '"',
    ensures
        scan_double(s, i, acc) == Some((acc + t, i + escaped(t).len() + 1)),
    decreases t.len(),
{
    let e = escaped(t);
    if t.len() == 0 {
        assert(acc + t =~= acc);
    } else {
        let rest = t.drop_first();
        let r = escaped(rest);
        let k = e.len() - r.len();
        assert(s.subrange(i, i + e.len())[0] == e[0] && s[i] == e[0]);
        if t[0] == '"' || t[0] == '\\' {
            assert(s.subrange(i, i + e.len())[1] == e[1] && s[i + 1] == e[1]);
        }
        assert forall|j: int| 0 <= j < r.len() implies s.subrange(i + k, i + k + r.len())[j]
            == r[j] by {
            assert(s.subrange(i, i + e.len())[k + j] == e[k + j]);
        }
        assert(s.subrange(i + k, i + k + r.len()) =~= r);
        lemma_escaped_read(s, i + k, rest, acc.push(t[0]));
        assert(acc.push(t[0]) + rest =~= acc + t);
    }
}

/// Any text can be written as one word: in double quotes, with a backslash before each
/// quote and each backslash, it is read back.
pub proof fn lemma_quoted_text_read_back(t: Text)
    ensures
        ({
            let s = seq!['"'] + escaped(t) + seq!['"'];
            step_normal(s, 0) == Ok::<LexStep, LexError>(
                LexStep { token: TokenModel::Word(t), end: s.len() as int, mode: LexMode::Normal },
            )
        }),
{
    let s = seq!['"'] + escaped(t) + seq!['"'];
    let n = escaped(t).len() as int;
    assert(s.subrange(1, 1 + n) =~= escaped(t));
    assert(s[1 + n] == '"');
    assert(s[0] == '"');
    lemma_escaped_read(s, 1, t, Seq::empty());
    assert(Seq::<char>::empty() + t =~= t);
    lemma_no_operator(s, 0);
    assert(scan_word(s, s.len() as int, false, t, true) == Ok::<ScannedWord, LexError>(
        ScannedWord { text: t, end: s.len() as int, quoted: true },
    ));
    assert(!word_stops(s, 0, false)) by {
        reveal_strlit("&&");
        if text::has_at(s, 0, "&&"@) {
            assert(s.subrange(0, 2)[0] == "&&"@[0]);
        }
    }
}

proof fn lemma_no_operator(s: Text, i: int)
    requires
        0 <= i < s.len(),
        s[i] != '|' && s[i] != '&' && s[i] != '-' && s[i] != '~',
    ensures
        operator_at(s, i) is None,
{
    reveal_strlit("|||");
    reveal_strlit("|?|");
    reveal_strlit("|&>");
    reveal_strlit("|!>");
    reveal_strlit("|>");
    reveal_strlit("||");
    reveal_strlit("&&");
    reveal_strlit("->");
    reveal_strlit("~>");
    if i + 2 <= s.len() {
        assert(s.subrange(i, i + 2)[0] == s[i]);
    }
    if i + 3 <= s.len() {
        assert(s.subrange(i, i + 3)[0] == s[i]);
    }
    assert("|||"@[0] == '|' && "|?|"@[0] == '|' && "|&>"@[0] == '|' && "|!>"@[0] == '|' && "|>"@[0]
        == '|' && "||"@[0] == '|' && "&&"@[0] == '&' && "->"@[0] == '-' && "~>"@[0] == '~');
}

proof fn lemma_single_end(s: Text, i: int, q: int)
    requires
        0 <= i <= q < s.len(),
        s[q] == '\'',
        forall|j: int| i <= j < q ==> s[j] != '\'',
    ensures
        text::find_from(s, i, '\'') == q,
    decreases q - i,
{
    if i < q {
        lemma_single_end(s, i + 1, q);
    }
}

/// What stands in single quotes is taken as it is.
pub proof fn lemma_single_quotes_are_literal(t: Text)
    requires
        !t.contains('\''),
    ensures
        ({
            let s = seq!['\''] + t + seq!['\''];
            step_normal(s, 0) == Ok::<LexStep, LexError>(
                LexStep { token: TokenModel::Word(t), end: s.len() as int, mode: LexMode::Normal },
            )
        }),
{
    let s = seq!['\''] + t + seq!['\''];
    let q = t.len() as int + 1;
    assert(s[0] == '\'');
    assert(s[q] == '\'');
    assert forall|j: int| 1 <= j < q implies s[j] != '\'' by {
        assert(s[j] == t[j - 1]);
        assert(t.contains(t[j - 1]));
    }
    lemma_single_end(s, 1, q);
    assert(Seq::<char>::empty() + s.subrange(1, q) =~= t);
    lemma_no_operator(s, 0);
    assert(scan_word(s, s.len() as int, false, t, true) == Ok::<ScannedWord, LexError>(
        ScannedWord { text: t, end: s.len() as int, quoted: true },
    ));
    assert(!word_stops(s, 0, false)) by {
        reveal_strlit("&&");
        if text::has_at(s, 0, "&&"@) {
            assert(s.subrange(0, 2)[0] == "&&"@[0]);
        }
    }
}

} // verus!
