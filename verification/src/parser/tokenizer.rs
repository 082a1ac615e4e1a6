//! Tokenizer: characters → tokens with byte spans.
//!
//! Outside mode params the input splits into whitespace, newlines, operators,
//! parentheses, `:command` names and words. A `(` directly behind a command
//! name opens mode params, in which `,`, `=` and `)` are tokens and everything
//! else is a parameter name or value. Single quotes make their content
//! literal; double quotes let a backslash quote the next character. Quotes are
//! part of the word they stand in and of its span, not of its text.

use vstd::prelude::*;

use super::token::{IdKind, Span, Spanned, SpannedModel, Token, TokenModel, Value, ValueModel};
use crate::text;
use crate::text::Text;

verus! {

/// What the next character can mean.
#[derive(Clone, Copy)]
pub enum LexMode {
    /// Ordinary input.
    Normal,
    /// Directly behind a command name.
    AfterCommand,
    /// Inside mode params; `after_eq` directly behind `=`.
    Params { after_eq: bool },
}

/// Why and where the input is no token sequence.
#[derive(Debug, PartialEq, Eq)]
pub struct TokenizeError {
    /// Byte offset of the offending character.
    pub pos: usize,
    pub message: String,
}

/// A word: its text, the index behind it, and whether any of it was quoted.
pub struct ScannedWord {
    pub text: Text,
    pub end: int,
    pub quoted: bool,
}

/// Where tokenizing stops and what is said about it.
pub struct LexError {
    pub at: int,
    pub message: Text,
}

/// One token: what it is, the index behind it, and the mode that follows.
pub struct LexStep {
    pub token: TokenModel,
    pub end: int,
    pub mode: LexMode,
}

/// Characters of a command name.
pub open spec fn is_name_char(c: char) -> bool {
    'a' <= c <= 'z' || 'A' <= c <= 'Z' || '0' <= c <= '9' || c == '_' || c == '-'
}

fn name_char(c: char) -> (r: bool)
    ensures
        r == is_name_char(c),
{
    ('a' <= c && c <= 'z') || ('A' <= c && c <= 'Z') || ('0' <= c && c <= '9') || c == '_' || c
        == '-'
}

/// The index behind the command name that starts at `i`.
pub open spec fn name_end(s: Text, i: int) -> int
    decreases s.len() - i,
{
    if 0 <= i < s.len() && is_name_char(s[i]) {
        name_end(s, i + 1)
    } else {
        i
    }
}

/// The index behind the horizontal whitespace that starts at `i`.
pub open spec fn blank_end(s: Text, i: int) -> int
    decreases s.len() - i,
{
    if 0 <= i < s.len() && text::is_white(s[i]) && s[i] != '\n' {
        blank_end(s, i + 1)
    } else {
        i
    }
}

/// The operator that starts at `i`, with its length in characters.
pub open spec fn operator_at(s: Text, i: int) -> Option<(TokenModel, int)> {
    if text::has_at(s, i, "|||"@) {
        Some((TokenModel::ParallelAll, 3))
    } else if text::has_at(s, i, "|?|"@) {
        Some((TokenModel::ParallelRace, 3))
    } else if text::has_at(s, i, "|&>"@) {
        Some((TokenModel::PipeAll, 3))
    } else if text::has_at(s, i, "|!>"@) {
        Some((TokenModel::PipeStderr, 3))
    } else if text::has_at(s, i, "|>"@) {
        Some((TokenModel::PipeStdout, 2))
    } else if text::has_at(s, i, "||"@) {
        Some((TokenModel::JobOr, 2))
    } else if text::has_at(s, i, "&&"@) {
        Some((TokenModel::JobAnd, 2))
    } else if text::has_at(s, i, "->"@) {
        Some((TokenModel::SerialThen, 2))
    } else if text::has_at(s, i, "~>"@) {
        Some((TokenModel::SerialAlways, 2))
    } else {
        None
    }
}

/// Whether a token is one of the operators that join jobs into chains.
pub open spec fn is_chain_token(t: TokenModel) -> bool {
    t is SerialThen || t is SerialAlways || t is ParallelAll || t is ParallelRace
}

/// Whether `i..e` stands alone: with whitespace or an end on both sides.
pub open spec fn stands_alone(s: Text, i: int, e: int) -> bool {
    (i == 0 || text::is_white(s[i - 1])) && (e == s.len() || text::is_white(s[e]))
}

/// The message about a chain operator that touches a word.
pub open spec fn boundary_message(op: Text) -> Text {
    "chain operator `"@ + op + "` must be surrounded by whitespace"@
}

/// Whether an unquoted word ends in front of index `i`.
pub open spec fn word_stops(s: Text, i: int, params: bool) -> bool {
    if params {
        text::is_white(s[i]) || s[i] == ',' || s[i] == ')' || s[i] == '='
    } else {
        text::is_white(s[i]) || s[i] == '(' || s[i] == ')' || s[i] == '|' || text::has_at(s, i, "&&"@)
    }
}

/// The text behind an opening double quote, up to the closing one: `acc`
/// holds what has been read. `None` if the quote is never closed.
pub open spec fn scan_double(s: Text, i: int, acc: Text) -> Option<(Text, int)>
    decreases s.len() - i,
{
    if !(0 <= i < s.len()) {
        None
    } else if s[i] == '"' {
        Some((acc, i + 1))
    } else if s[i] == '\\' && i + 1 < s.len() {
        scan_double(s, i + 2, acc.push(s[i + 1]))
    } else {
        scan_double(s, i + 1, acc.push(s[i]))
    }
}

/// The word that goes on at `i`: `acc` holds what has been read of it.
pub open spec fn scan_word(s: Text, i: int, params: bool, acc: Text, quoted: bool) -> Result<
    ScannedWord,
    LexError,
>
    decreases s.len() - i,
{
    if !(0 <= i < s.len()) || word_stops(s, i, params) {
        Ok(ScannedWord { text: acc, end: i, quoted })
    } else if s[i] == '\'' {
        let q = text::find_from(s, i + 1, '\'');
        proof {
            text::lemma_find_from(s, i + 1, '\'');
        }
        if q >= s.len() {
            Err(LexError { at: i, message: "unterminated single quote"@ })
        } else {
            scan_word(s, q + 1, params, acc + s.subrange(i + 1, q), true)
        }
    } else if s[i] == '"' {
        proof {
            lemma_scan_double(s, i + 1, Seq::empty());
        }
        match scan_double(s, i + 1, Seq::empty()) {
            None => Err(LexError { at: i, message: "unterminated double quote"@ }),
            Some((t, e)) => scan_word(s, e, params, acc + t, true),
        }
    } else if !params && text::has_at(s, i, "->"@) {
        Err(LexError { at: i, message: boundary_message("->"@) })
    } else if !params && text::has_at(s, i, "~>"@) {
        Err(LexError { at: i, message: boundary_message("~>"@) })
    } else {
        scan_word(s, i + 1, params, acc.push(s[i]), quoted)
    }
}

pub proof fn lemma_scan_double(s: Text, i: int, acc: Text)
    requires
        0 <= i,
    ensures
        scan_double(s, i, acc) matches Some((t, e)) ==> i < e <= s.len(),
    decreases s.len() - i,
{
    if i < s.len() && s[i] != '"' {
        if s[i] == '\\' && i + 1 < s.len() {
            lemma_scan_double(s, i + 2, acc.push(s[i + 1]));
        } else {
            lemma_scan_double(s, i + 1, acc.push(s[i]));
        }
    }
}

pub proof fn lemma_scan_word(s: Text, i: int, params: bool, acc: Text, quoted: bool)
    requires
        0 <= i <= s.len(),
    ensures
        match scan_word(s, i, params, acc, quoted) {
            Ok(w) => i <= w.end <= s.len() && (i < s.len() && !word_stops(s, i, params) ==> i
                < w.end),
            Err(e) => i <= e.at < s.len(),
        },
    decreases s.len() - i,
{
    if i < s.len() && !word_stops(s, i, params) {
        if s[i] == '\'' {
            let q = text::find_from(s, i + 1, '\'');
            text::lemma_find_from(s, i + 1, '\'');
            if q < s.len() {
                lemma_scan_word(s, q + 1, params, acc + s.subrange(i + 1, q), true);
            }
        } else if s[i] == '"' {
            lemma_scan_double(s, i + 1, Seq::empty());
            if let Some((t, e)) = scan_double(s, i + 1, Seq::empty()) {
                lemma_scan_word(s, e, params, acc + t, true);
            }
        } else if !params && text::has_at(s, i, "->"@) {
        } else if !params && text::has_at(s, i, "~>"@) {
        } else {
            lemma_scan_word(s, i + 1, params, acc.push(s[i]), quoted);
        }
    }
}

/// The ID that a bare word denotes: `J` or `C` and a number without leading
/// zeros that fits 32 bits.
pub open spec fn id_of_word(w: Text) -> Option<(IdKind, u32)> {
    if w.len() >= 2 && (w[0] == 'J' || w[0] == 'C') && (w[1] != '0' || w.len() == 2) {
        match text::parse_unsigned(w.skip(1), u32::MAX as nat) {
            Some(n) => Some(
                (
                    if w[0] == 'J' {
                        IdKind::Job
                    } else {
                        IdKind::Cron
                    },
                    n as u32,
                ),
            ),
            None => None,
        }
    } else {
        None
    }
}

/// The token for a word outside mode params.
pub open spec fn word_token(w: ScannedWord) -> TokenModel {
    match id_of_word(w.text) {
        Some((k, n)) if !w.quoted => TokenModel::IdRef(k, n),
        _ => TokenModel::Word(w.text),
    }
}

/// The token for a word inside mode params.
pub open spec fn param_token(w: ScannedWord, after_eq: bool) -> TokenModel {
    if !after_eq {
        TokenModel::Word(w.text)
    } else if !w.quoted && w.text == "true"@ {
        TokenModel::ParamValue(ValueModel::Bool(true))
    } else if !w.quoted && w.text == "false"@ {
        TokenModel::ParamValue(ValueModel::Bool(false))
    } else {
        TokenModel::ParamValue(ValueModel::Str(w.text))
    }
}

/// The message about `|` on its own.
pub open spec fn bare_pipe_message() -> Text {
    "bare `|` is not a cue-shell pipe operator; use `|>` to pipe stdout, `|&>` for stdout and stderr, or `|!>` for stderr"@
}

/// The token that starts at `i` inside mode params.
pub open spec fn step_params(s: Text, i: int, after_eq: bool) -> Result<LexStep, LexError> {
    let same = LexMode::Params { after_eq };
    let other = LexMode::Params { after_eq: false };
    if s[i] == ')' {
        Ok(LexStep { token: TokenModel::ModeParenClose, end: i + 1, mode: LexMode::Normal })
    } else if s[i] == ',' {
        Ok(LexStep { token: TokenModel::Comma, end: i + 1, mode: other })
    } else if s[i] == '=' {
        Ok(
            LexStep {
                token: TokenModel::ParamEq,
                end: i + 1,
                mode: LexMode::Params { after_eq: true },
            },
        )
    } else if s[i] == '\n' {
        Ok(LexStep { token: TokenModel::Newline, end: i + 1, mode: same })
    } else if text::is_white(s[i]) {
        let e = blank_end(s, i);
        Ok(LexStep { token: TokenModel::Whitespace(s.subrange(i, e)), end: e, mode: same })
    } else {
        match scan_word(s, i, true, Seq::empty(), false) {
            Ok(w) => Ok(LexStep { token: param_token(w, after_eq), end: w.end, mode: other }),
            Err(e) => Err(e),
        }
    }
}

/// The token that starts at `i` in ordinary input.
pub open spec fn step_normal(s: Text, i: int) -> Result<LexStep, LexError> {
    let n = LexMode::Normal;
    if s[i] == '\n' {
        Ok(LexStep { token: TokenModel::Newline, end: i + 1, mode: n })
    } else if text::is_white(s[i]) {
        let e = blank_end(s, i);
        Ok(LexStep { token: TokenModel::Whitespace(s.subrange(i, e)), end: e, mode: n })
    } else if s[i] == ':' && i + 1 < s.len() && is_name_char(s[i + 1]) {
        let e = name_end(s, i + 1);
        Ok(
            LexStep {
                token: TokenModel::Command(s.subrange(i + 1, e)),
                end: e,
                mode: LexMode::AfterCommand,
            },
        )
    } else if s[i] == ':' && (i + 1 >= s.len() || text::is_white(s[i + 1])) {
        Ok(LexStep { token: TokenModel::Colon, end: i + 1, mode: n })
    } else if s[i] == '(' {
        Ok(LexStep { token: TokenModel::GroupOpen, end: i + 1, mode: n })
    } else if s[i] == ')' {
        Ok(LexStep { token: TokenModel::GroupClose, end: i + 1, mode: n })
    } else {
        match operator_at(s, i) {
            Some((t, l)) => if is_chain_token(t) && !stands_alone(s, i, i + l) {
                Err(
                    LexError { at: i, message: boundary_message(super::token::operator_of(t)) },
                )
            } else {
                Ok(LexStep { token: t, end: i + l, mode: n })
            },
            None => if s[i] == '|' {
                Err(LexError { at: i, message: bare_pipe_message() })
            } else {
                match scan_word(s, i, false, Seq::empty(), false) {
                    Ok(w) => Ok(LexStep { token: word_token(w), end: w.end, mode: n }),
                    Err(e) => Err(e),
                }
            },
        }
    }
}

/// The token that starts at `i`.
pub open spec fn step(s: Text, i: int, mode: LexMode) -> Result<LexStep, LexError> {
    match mode {
        LexMode::Params { after_eq } => step_params(s, i, after_eq),
        LexMode::AfterCommand => if s[i] == '(' {
            Ok(
                LexStep {
                    token: TokenModel::ModeParenOpen,
                    end: i + 1,
                    mode: LexMode::Params { after_eq: false },
                },
            )
        } else {
            step_normal(s, i)
        },
        LexMode::Normal => step_normal(s, i),
    }
}

pub proof fn lemma_blank_end(s: Text, i: int)
    requires
        0 <= i <= s.len(),
    ensures
        i <= blank_end(s, i) <= s.len(),
    decreases s.len() - i,
{
    if i < s.len() && text::is_white(s[i]) && s[i] != '\n' {
        lemma_blank_end(s, i + 1);
    }
}

pub proof fn lemma_name_end(s: Text, i: int)
    requires
        0 <= i <= s.len(),
    ensures
        i <= name_end(s, i) <= s.len(),
    decreases s.len() - i,
{
    if i < s.len() && is_name_char(s[i]) {
        lemma_name_end(s, i + 1);
    }
}

pub proof fn lemma_operator_len(s: Text, i: int)
    requires
        0 <= i <= s.len(),
    ensures
        operator_at(s, i) matches Some((t, l)) ==> l > 0 && i + l <= s.len(),
{
    reveal_strlit("|||");
    reveal_strlit("|?|");
    reveal_strlit("|&>");
    reveal_strlit("|!>");
    reveal_strlit("|>");
    reveal_strlit("||");
    reveal_strlit("&&");
    reveal_strlit("->");
    reveal_strlit("~>");
}

/// Every token takes at least one character, and an error names a character.
pub proof fn lemma_step_progress(s: Text, i: int, mode: LexMode)
    requires
        0 <= i < s.len(),
    ensures
        match step(s, i, mode) {
            Ok(t) => i < t.end <= s.len(),
            Err(e) => i <= e.at < s.len(),
        },
{
    lemma_blank_end(s, i);
    lemma_blank_end(s, i + 1);
    lemma_name_end(s, i + 1);
    lemma_operator_len(s, i);
    lemma_scan_word(s, i, true, Seq::empty(), false);
    lemma_scan_word(s, i, false, Seq::empty(), false);
    reveal_strlit("&&");
    if text::has_at(s, i, "&&"@) {
        assert(operator_at(s, i) is Some);
    }
}

/// The byte offset of character `i`.
pub open spec fn offset(s: Text, i: int) -> int {
    text::byte_len(s.take(i)) as int
}

/// The tokens of `s` from `i` on, behind those in `acc`.
pub open spec fn lex(s: Text, i: int, mode: LexMode, acc: Seq<SpannedModel>) -> Result<
    Seq<SpannedModel>,
    LexError,
>
    decreases s.len() - i,
{
    if !(0 <= i < s.len()) {
        Ok(
            acc.push(
                SpannedModel {
                    token: TokenModel::Eof,
                    start: text::byte_len(s) as int,
                    end: text::byte_len(s) as int,
                },
            ),
        )
    } else {
        proof {
            lemma_step_progress(s, i, mode);
        }
        match step(s, i, mode) {
            Ok(t) => lex(
                s,
                t.end,
                t.mode,
                acc.push(
                    SpannedModel { token: t.token, start: offset(s, i), end: offset(s, t.end) },
                ),
            ),
            Err(e) => Err(e),
        }
    }
}

/// The tokens of `s`, the last of them `Eof`.
pub open spec fn token_models(s: Text) -> Result<Seq<SpannedModel>, LexError> {
    lex(s, 0, LexMode::Normal, Seq::empty())
}

// ── Executable tokenizer ──

struct Word {
    text: Vec<char>,
    end: usize,
    quoted: bool,
}

impl Word {
    spec fn model(self) -> ScannedWord {
        ScannedWord { text: self.text@, end: self.end as int, quoted: self.quoted }
    }
}

struct Failure {
    at: usize,
    message: String,
}

impl Failure {
    spec fn model(self) -> LexError {
        LexError { at: self.at as int, message: self.message@ }
    }
}

struct Lexeme {
    token: Token,
    end: usize,
    mode: LexMode,
}

impl Lexeme {
    spec fn model(self) -> LexStep {
        LexStep { token: self.token@, end: self.end as int, mode: self.mode }
    }
}

fn find_name_end(v: &Vec<char>, from: usize) -> (r: usize)
    requires
        from <= v@.len(),
    ensures
        r == name_end(v@, from as int),
        from <= r <= v@.len(),
{
    let mut i: usize = from;
    while i < v.len() && name_char(v[i])
        invariant
            from <= i <= v@.len(),
            name_end(v@, from as int) == name_end(v@, i as int),
        decreases v@.len() - i,
    {
        i = i + 1;
    }
    i
}

fn find_blank_end(v: &Vec<char>, from: usize) -> (r: usize)
    requires
        from <= v@.len(),
    ensures
        r == blank_end(v@, from as int),
        from <= r <= v@.len(),
{
    let mut i: usize = from;
    while i < v.len() && text::is_whitespace(v[i]) && v[i] != '\n'
        invariant
            from <= i <= v@.len(),
            blank_end(v@, from as int) == blank_end(v@, i as int),
        decreases v@.len() - i,
    {
        i = i + 1;
    }
    i
}

fn find_operator(v: &Vec<char>, i: usize) -> (r: Option<(Token, usize)>)
    requires
        i <= v@.len(),
    ensures
        match r {
            Some((t, l)) => operator_at(v@, i as int) == Some((t@, l as int)) && i + l <= v@.len(),
            None => operator_at(v@, i as int) is None,
        },
{
    proof {
        lemma_operator_len(v@, i as int);
    }
    if text::chars_at(v, i, "|||") {
        Some((Token::ParallelAll, 3))
    } else if text::chars_at(v, i, "|?|") {
        Some((Token::ParallelRace, 3))
    } else if text::chars_at(v, i, "|&>") {
        Some((Token::PipeAll, 3))
    } else if text::chars_at(v, i, "|!>") {
        Some((Token::PipeStderr, 3))
    } else if text::chars_at(v, i, "|>") {
        Some((Token::PipeStdout, 2))
    } else if text::chars_at(v, i, "||") {
        Some((Token::JobOr, 2))
    } else if text::chars_at(v, i, "&&") {
        Some((Token::JobAnd, 2))
    } else if text::chars_at(v, i, "->") {
        Some((Token::SerialThen, 2))
    } else if text::chars_at(v, i, "~>") {
        Some((Token::SerialAlways, 2))
    } else {
        None
    }
}

fn read_double(v: &Vec<char>, from: usize) -> (r: Option<(Vec<char>, usize)>)
    requires
        from <= v@.len(),
    ensures
        match r {
            Some((t, e)) => scan_double(v@, from as int, Seq::empty()) == Some((t@, e as int))
                && from < e <= v@.len(),
            None => scan_double(v@, from as int, Seq::empty()) is None,
        },
{
    let mut acc: Vec<char> = Vec::new();
    let mut i: usize = from;
    while i < v.len()
        invariant
            from <= i <= v@.len(),
            scan_double(v@, from as int, Seq::empty()) == scan_double(v@, i as int, acc@),
        decreases v@.len() - i,
    {
        if v[i] == '"' {
            return Some((acc, i + 1));
        }
        if v[i] == '\\' && i + 1 < v.len() {
            acc.push(v[i + 1]);
            i = i + 2;
        } else {
            acc.push(v[i]);
            i = i + 1;
        }
    }
    None
}

fn stops(v: &Vec<char>, i: usize, params: bool) -> (r: bool)
    requires
        i < v.len(),
    ensures
        r == word_stops(v@, i as int, params),
{
    if params {
        text::is_whitespace(v[i]) || v[i] == ',' || v[i] == ')' || v[i] == '='
    } else {
        text::is_whitespace(v[i]) || v[i] == '(' || v[i] == ')' || v[i] == '|' || text::chars_at(v, i, "&&")
    }
}

fn read_word(v: &Vec<char>, from: usize, params: bool) -> (r: Result<Word, Failure>)
    requires
        from < v@.len(),
    ensures
        match r {
            Ok(w) => scan_word(v@, from as int, params, Seq::empty(), false) == Ok::<
                ScannedWord,
                LexError,
            >(w.model()) && from <= w.end <= v@.len(),
            Err(e) => scan_word(v@, from as int, params, Seq::empty(), false) == Err::<
                ScannedWord,
                LexError,
            >(e.model()),
        },
{
    let mut acc: Vec<char> = Vec::new();
    let mut quoted: bool = false;
    let mut i: usize = from;
    while i < v.len() && !stops(v, i, params)
        invariant
            from <= i <= v@.len(),
            scan_word(v@, from as int, params, Seq::empty(), false) == scan_word(
                v@,
                i as int,
                params,
                acc@,
                quoted,
            ),
        decreases v@.len() - i,
    {
        if v[i] == '\'' {
            let q = text::find_char(v, i + 1, '\'');
            if q >= v.len() {
                return Err(Failure { at: i, message: "unterminated single quote".to_owned() });
            }
            let mut part = text::sub_chars(v, i + 1, q);
            acc.append(&mut part);
            quoted = true;
            i = q + 1;
        } else if v[i] == '"' {
            match read_double(v, i + 1) {
                None => {
                    return Err(Failure { at: i, message: "unterminated double quote".to_owned() });
                },
                Some((part, e)) => {
                    let mut part = part;
                    acc.append(&mut part);
                    quoted = true;
                    i = e;
                },
            }
        } else if !params && text::chars_at(v, i, "->") {
            return Err(Failure { at: i, message: boundary_text("->") });
        } else if !params && text::chars_at(v, i, "~>") {
            return Err(Failure { at: i, message: boundary_text("~>") });
        } else {
            acc.push(v[i]);
            i = i + 1;
        }
    }
    Ok(Word { text: acc, end: i, quoted })
}

fn boundary_text(op: &str) -> (r: String)
    ensures
        r@ == boundary_message(op@),
{
    text::concat3("chain operator `", op, "` must be surrounded by whitespace")
}

/// The ID that a bare word denotes, if any.
fn word_id(w: &Vec<char>) -> (r: Option<(IdKind, u32)>)
    ensures
        r == id_of_word(w@),
{
    if w.len() >= 2 && (w[0] == 'J' || w[0] == 'C') && (w[1] != '0' || w.len() == 2) {
        let digits = text::sub_chars(w, 1, w.len());
        assert(digits@ =~= w@.skip(1));
        match text::parse_digits(&digits, 0xffff_ffff) {
            Some(n) => Some(
                (
                    if w[0] == 'J' {
                        IdKind::Job
                    } else {
                        IdKind::Cron
                    },
                    n as u32,
                ),
            ),
            None => None,
        }
    } else {
        None
    }
}

fn token_of_word(w: Word) -> (r: Lexeme)
    ensures
        r.model() == (LexStep {
            token: word_token(w.model()),
            end: w.end as int,
            mode: LexMode::Normal,
        }),
{
    let end = w.end;
    let id = if w.quoted {
        None
    } else {
        word_id(&w.text)
    };
    let token = match id {
        Some((k, n)) => Token::IdRef(k, n),
        None => Token::Word(text::all_string(&w.text)),
    };
    Lexeme { token, end, mode: LexMode::Normal }
}

fn token_of_param(w: Word, after_eq: bool) -> (r: Lexeme)
    ensures
        r.model() == (LexStep {
            token: param_token(w.model(), after_eq),
            end: w.end as int,
            mode: LexMode::Params { after_eq: false },
        }),
{
    let end = w.end;
    let text = text::all_string(&w.text);
    let token = if !after_eq {
        Token::Word(text)
    } else if !w.quoted && text::str_eq(text.as_str(), "true") {
        Token::ParamValue(Value::Bool(true))
    } else if !w.quoted && text::str_eq(text.as_str(), "false") {
        Token::ParamValue(Value::Bool(false))
    } else {
        Token::ParamValue(Value::Str(text))
    };
    Lexeme { token, end, mode: LexMode::Params { after_eq: false } }
}

fn next_in_params(v: &Vec<char>, i: usize, after_eq: bool) -> (r: Result<Lexeme, Failure>)
    requires
        i < v.len(),
    ensures
        match r {
            Ok(t) => step_params(v@, i as int, after_eq) == Ok::<LexStep, LexError>(t.model()),
            Err(e) => step_params(v@, i as int, after_eq) == Err::<LexStep, LexError>(e.model()),
        },
{
    let c = v[i];
    if c == ')' {
        Ok(Lexeme { token: Token::ModeParenClose, end: i + 1, mode: LexMode::Normal })
    } else if c == ',' {
        Ok(Lexeme { token: Token::Comma, end: i + 1, mode: LexMode::Params { after_eq: false } })
    } else if c == '=' {
        Ok(Lexeme { token: Token::ParamEq, end: i + 1, mode: LexMode::Params { after_eq: true } })
    } else if c == '\n' {
        Ok(Lexeme { token: Token::Newline, end: i + 1, mode: LexMode::Params { after_eq } })
    } else if text::is_whitespace(c) {
        let e = find_blank_end(v, i);
        Ok(
            Lexeme {
                token: Token::Whitespace(text::string_of(v, i, e)),
                end: e,
                mode: LexMode::Params { after_eq },
            },
        )
    } else {
        match read_word(v, i, true) {
            Ok(w) => Ok(token_of_param(w, after_eq)),
            Err(e) => Err(e),
        }
    }
}

fn next_in_normal(v: &Vec<char>, i: usize) -> (r: Result<Lexeme, Failure>)
    requires
        i < v.len(),
    ensures
        match r {
            Ok(t) => step_normal(v@, i as int) == Ok::<LexStep, LexError>(t.model()),
            Err(e) => step_normal(v@, i as int) == Err::<LexStep, LexError>(e.model()),
        },
{
    let c = v[i];
    let n = LexMode::Normal;
    if c == '\n' {
        return Ok(Lexeme { token: Token::Newline, end: i + 1, mode: n });
    }
    if text::is_whitespace(c) {
        let e = find_blank_end(v, i);
        return Ok(Lexeme { token: Token::Whitespace(text::string_of(v, i, e)), end: e, mode: n });
    }
    if c == ':' && i + 1 < v.len() && name_char(v[i + 1]) {
        let e = find_name_end(v, i + 1);
        return Ok(
            Lexeme {
                token: Token::Command(text::string_of(v, i + 1, e)),
                end: e,
                mode: LexMode::AfterCommand,
            },
        );
    }
    if c == ':' && (i + 1 >= v.len() || text::is_whitespace(v[i + 1])) {
        return Ok(Lexeme { token: Token::Colon, end: i + 1, mode: n });
    }
    if c == '(' {
        return Ok(Lexeme { token: Token::GroupOpen, end: i + 1, mode: n });
    }
    if c == ')' {
        return Ok(Lexeme { token: Token::GroupClose, end: i + 1, mode: n });
    }
    match find_operator(v, i) {
        Some((t, l)) => {
            let e: usize = i + l;
            let chain = match t {
                Token::SerialThen | Token::SerialAlways => true,
                Token::ParallelAll | Token::ParallelRace => true,
                _ => false,
            };
            let alone = (i == 0 || text::is_whitespace(v[i - 1])) && (e == v.len() || text::is_whitespace(
                v[e],
            ));
            if chain && !alone {
                Err(Failure { at: i, message: boundary_text(t.operator_text()) })
            } else {
                Ok(Lexeme { token: t, end: e, mode: n })
            }
        },
        None => if c == '|' {
            Err(
                Failure {
                    at: i,
                    message:
                        "bare `|` is not a cue-shell pipe operator; use `|>` to pipe stdout, `|&>` for stdout and stderr, or `|!>` for stderr".to_owned(),
                },
            )
        } else {
            match read_word(v, i, false) {
                Ok(w) => Ok(token_of_word(w)),
                Err(e) => Err(e),
            }
        },
    }
}

fn next_token(v: &Vec<char>, i: usize, mode: LexMode) -> (r: Result<Lexeme, Failure>)
    requires
        i < v.len(),
    ensures
        match r {
            Ok(t) => step(v@, i as int, mode) == Ok::<LexStep, LexError>(t.model()),
            Err(e) => step(v@, i as int, mode) == Err::<LexStep, LexError>(e.model()),
        },
{
    match mode {
        LexMode::Params { after_eq } => next_in_params(v, i, after_eq),
        LexMode::AfterCommand => if v[i] == '(' {
            Ok(
                Lexeme {
                    token: Token::ModeParenOpen,
                    end: i + 1,
                    mode: LexMode::Params { after_eq: false },
                },
            )
        } else {
            next_in_normal(v, i)
        },
        LexMode::Normal => next_in_normal(v, i),
    }
}

/// The byte offset of character `to`, given that of character `from`.
fn advance_offset(v: &Vec<char>, from: usize, to: usize, off: usize) -> (r: usize)
    requires
        from <= to <= v@.len(),
        off == offset(v@, from as int),
        text::byte_len(v@) <= usize::MAX,
    ensures
        r == offset(v@, to as int),
{
    let mut i: usize = from;
    let mut o: usize = off;
    while i < to
        invariant
            from <= i <= to <= v@.len(),
            o == offset(v@, i as int),
            text::byte_len(v@) <= usize::MAX,
        decreases to - i,
    {
        proof {
            assert(v@.take(i + 1).drop_last() =~= v@.take(i as int));
            text::lemma_byte_len_prefix(v@, i + 1, v@.len() as int);
            assert(v@.take(v@.len() as int) =~= v@);
        }
        o = o + text::char_utf8_len(v[i]);
        i = i + 1;
    }
    o
}

/// Splits input into tokens.
pub struct Tokenizer;

impl Tokenizer {
    /// The tokens of `input`, whitespace included and `Eof` last.
    pub fn tokenize(input: &str) -> (r: Result<Vec<Spanned>, TokenizeError>)
        ensures
            match r {
                Ok(ts) => token_models(input@) == Ok::<Seq<SpannedModel>, LexError>(
                    super::token::models(ts@),
                ),
                Err(e) => token_models(input@) matches Err(f) && e.message@ == f.message && e.pos
                    == offset(input@, f.at) && e.pos < text::byte_len(input@) <= usize::MAX,
            },
    {
        let total = text::str_byte_len(input);
        let v = text::chars_of(input);
        let mut out: Vec<Spanned> = Vec::new();
        let mut i: usize = 0;
        let mut off: usize = 0;
        let mut mode = LexMode::Normal;
        proof {
            assert(v@.take(0) =~= Seq::<char>::empty());
            assert(super::token::models(out@) =~= Seq::<SpannedModel>::empty());
        }
        while i < v.len()
            invariant
                i <= v@.len(),
                v@ == input@,
                off == offset(v@, i as int),
                total == text::byte_len(v@),
                lex(v@, 0, LexMode::Normal, Seq::empty()) == lex(
                    v@,
                    i as int,
                    mode,
                    super::token::models(out@),
                ),
            decreases v@.len() - i,
        {
            proof {
                lemma_step_progress(v@, i as int, mode);
            }
            match next_token(&v, i, mode) {
                Ok(t) => {
                    let end_off = advance_offset(&v, i, t.end, off);
                    let sp = Spanned { token: t.token, span: Span::new(off, end_off) };
                    proof {
                        assert(super::token::models(out@.push(sp)) =~= super::token::models(
                            out@,
                        ).push(sp@));
                    }
                    out.push(sp);
                    i = t.end;
                    mode = t.mode;
                    off = end_off;
                },
                Err(e) => {
                    proof {
                        lemma_step_progress(v@, i as int, mode);
                        text::lemma_byte_len_prefix(v@, e.at as int, v@.len() as int);
                        assert(v@.take(v@.len() as int) =~= v@);
                    }
                    let pos = advance_offset(&v, i, e.at, off);
                    return Err(TokenizeError { pos, message: e.message });
                },
            }
        }
        let sp = Spanned { token: Token::Eof, span: Span::new(total, total) };
        proof {
            assert(super::token::models(out@.push(sp)) =~= super::token::models(out@).push(sp@));
        }
        out.push(sp);
        Ok(out)
    }
}

/// The tokens stand side by side from the first byte up to `end`.
pub open spec fn side_by_side(ts: Seq<SpannedModel>, end: int) -> bool {
    &&& ts.len() == 0 ==> end == 0
    &&& ts.len() > 0 ==> ts[0].start == 0 && ts.last().end == end
    &&& forall|k: int| 0 <= k < ts.len() ==> (#[trigger] ts[k]).start <= ts[k].end
    &&& forall|j: int, k: int|
        #![trigger ts[j], ts[k]]
        0 <= j && k == j + 1 && k < ts.len() ==> ts[j].end == ts[k].start
}

proof fn lemma_lex_side_by_side(s: Text, i: int, mode: LexMode, acc: Seq<SpannedModel>)
    requires
        0 <= i <= s.len(),
        side_by_side(acc, offset(s, i)),
    ensures
        lex(s, i, mode, acc) matches Ok(ts) ==> ts.len() > 0 && ts.last().token == TokenModel::Eof
            && side_by_side(ts, text::byte_len(s) as int),
    decreases s.len() - i,
{
    if i < s.len() {
        lemma_step_progress(s, i, mode);
        if let Ok(t) = step(s, i, mode) {
            text::lemma_byte_len_prefix(s, i, t.end);
            let next = SpannedModel { token: t.token, start: offset(s, i), end: offset(s, t.end) };
            if acc.len() == 0 {
                assert(acc.push(next)[0] == next);
            } else {
                assert(acc.push(next)[0] == acc[0]);
                assert(acc.last() == acc[acc.len() - 1]);
            }
            assert(side_by_side(acc.push(next), offset(s, t.end)));
            lemma_lex_side_by_side(s, t.end, t.mode, acc.push(next));
        }
    } else {
        assert(s.take(i) =~= s);
        let n = text::byte_len(s) as int;
        let eof = SpannedModel { token: TokenModel::Eof, start: n, end: n };
        if acc.len() == 0 {
            assert(acc.push(eof)[0] == eof);
        } else {
            assert(acc.push(eof)[0] == acc[0]);
            assert(acc.last() == acc[acc.len() - 1]);
        }
        assert(side_by_side(acc.push(eof), n));
    }
}

/// The tokens of an input cover it from its first byte to its last, without
/// gap or overlap, and end with `Eof`.
pub proof fn lemma_tokens_cover_the_input(s: Text)
    ensures
        token_models(s) matches Ok(ts) ==> ts.len() > 0 && ts.last().token == TokenModel::Eof
            && side_by_side(ts, text::byte_len(s) as int),
{
    assert(s.take(0) =~= Seq::<char>::empty());
    lemma_lex_side_by_side(s, 0, LexMode::Normal, Seq::empty());
}

} // verus!
