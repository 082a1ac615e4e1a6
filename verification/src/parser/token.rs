//! Tokens of the command language.

use vstd::prelude::*;

use crate::text;
use crate::text::Text;

verus! {

/// Token types produced by the tokenizer.
#[derive(Debug, PartialEq)]
pub enum Token {
    // Command prefix
    /// `:` without a command name behind it.
    Colon,
    /// Command name immediately after `:`, e.g. `run`, `kill`, `jobs`.
    Command(String),
    // Mode params (immediately after a command name)
    /// `(` in mode-params context.
    ModeParenOpen,
    /// `)` in mode-params context.
    ModeParenClose,
    /// `=` in mode-params.
    ParamEq,
    /// Parameter value in mode-params.
    ParamValue(Value),
    /// `,` separator in mode-params.
    Comma,
    // Chain operators (job-level)
    /// `->` serial-then.
    SerialThen,
    /// `~>` serial-always.
    SerialAlways,
    /// `|||` parallel-all.
    ParallelAll,
    /// `|?|` parallel-race.
    ParallelRace,
    /// `&&` job-internal AND.
    JobAnd,
    /// `||` job-internal OR.
    JobOr,
    // Pipe operators (process-level, within a job)
    /// `|>` stdout pipe.
    PipeStdout,
    /// `|&>` stdout+stderr pipe.
    PipeAll,
    /// `|!>` stderr-only pipe.
    PipeStderr,
    // Grouping (chain-level)
    /// `(` for chain grouping.
    GroupOpen,
    /// `)` for chain grouping.
    GroupClose,
    // Content
    /// A word (command argument, filename, flag, etc.)
    Word(String),
    /// An entity ID reference like J1 or C3.
    IdRef(IdKind, u32),
    // Whitespace (kept for highlighting, skipped during parsing)
    Whitespace(String),
    Newline,
    // Sentinel
    Eof,
}

/// Entity ID prefix kind.
#[derive(Debug, Clone, Copy, PartialEq, Eq, Structural)]
pub enum IdKind {
    Job,
    Cron,
}

/// Typed value in mode-params.
#[derive(Debug, PartialEq)]
pub enum Value {
    Str(String),
    Bool(bool),
}

/// A token with its byte-offset span in the input.
#[derive(Debug, PartialEq)]
pub struct Spanned {
    pub token: Token,
    pub span: Span,
}

/// Byte-offset range in the input.
#[derive(Debug, Clone, Copy, PartialEq, Eq, Structural)]
pub struct Span {
    pub start: usize,
    pub end: usize,
}

/// A parameter value over character sequences.
pub enum ValueModel {
    Str(Text),
    Bool(bool),
}

/// A token over character sequences.
pub enum TokenModel {
    Colon,
    Command(Text),
    ModeParenOpen,
    ModeParenClose,
    ParamEq,
    ParamValue(ValueModel),
    Comma,
    SerialThen,
    SerialAlways,
    ParallelAll,
    ParallelRace,
    JobAnd,
    JobOr,
    PipeStdout,
    PipeAll,
    PipeStderr,
    GroupOpen,
    GroupClose,
    Word(Text),
    IdRef(IdKind, u32),
    Whitespace(Text),
    Newline,
    Eof,
}

/// A token with its byte offsets.
pub struct SpannedModel {
    pub token: TokenModel,
    pub start: int,
    pub end: int,
}

impl View for Value {
    type V = ValueModel;

    open spec fn view(&self) -> ValueModel {
        match *self {
            Value::Str(s) => ValueModel::Str(s@),
            Value::Bool(b) => ValueModel::Bool(b),
        }
    }
}

impl View for Token {
    type V = TokenModel;

    open spec fn view(&self) -> TokenModel {
        match *self {
            Token::Colon => TokenModel::Colon,
            Token::Command(s) => TokenModel::Command(s@),
            Token::ModeParenOpen => TokenModel::ModeParenOpen,
            Token::ModeParenClose => TokenModel::ModeParenClose,
            Token::ParamEq => TokenModel::ParamEq,
            Token::ParamValue(v) => TokenModel::ParamValue(v@),
            Token::Comma => TokenModel::Comma,
            Token::SerialThen => TokenModel::SerialThen,
            Token::SerialAlways => TokenModel::SerialAlways,
            Token::ParallelAll => TokenModel::ParallelAll,
            Token::ParallelRace => TokenModel::ParallelRace,
            Token::JobAnd => TokenModel::JobAnd,
            Token::JobOr => TokenModel::JobOr,
            Token::PipeStdout => TokenModel::PipeStdout,
            Token::PipeAll => TokenModel::PipeAll,
            Token::PipeStderr => TokenModel::PipeStderr,
            Token::GroupOpen => TokenModel::GroupOpen,
            Token::GroupClose => TokenModel::GroupClose,
            Token::Word(s) => TokenModel::Word(s@),
            Token::IdRef(k, n) => TokenModel::IdRef(k, n),
            Token::Whitespace(s) => TokenModel::Whitespace(s@),
            Token::Newline => TokenModel::Newline,
            Token::Eof => TokenModel::Eof,
        }
    }
}

impl View for Spanned {
    type V = SpannedModel;

    open spec fn view(&self) -> SpannedModel {
        SpannedModel {
            token: self.token@,
            start: self.span.start as int,
            end: self.span.end as int,
        }
    }
}

/// The models of a sequence of tokens.
pub open spec fn models(ts: Seq<Spanned>) -> Seq<SpannedModel> {
    ts.map_values(|t: Spanned| t@)
}

impl Clone for Value {
    fn clone(&self) -> (r: Value)
        ensures
            r == *self,
    {
        match self {
            Value::Str(s) => Value::Str(s.clone()),
            Value::Bool(b) => Value::Bool(*b),
        }
    }
}

impl Clone for Token {
    fn clone(&self) -> (r: Token)
        ensures
            r == *self,
    {
        match self {
            Token::Colon => Token::Colon,
            Token::Command(s) => Token::Command(s.clone()),
            Token::ModeParenOpen => Token::ModeParenOpen,
            Token::ModeParenClose => Token::ModeParenClose,
            Token::ParamEq => Token::ParamEq,
            Token::ParamValue(v) => Token::ParamValue(v.clone()),
            Token::Comma => Token::Comma,
            Token::SerialThen => Token::SerialThen,
            Token::SerialAlways => Token::SerialAlways,
            Token::ParallelAll => Token::ParallelAll,
            Token::ParallelRace => Token::ParallelRace,
            Token::JobAnd => Token::JobAnd,
            Token::JobOr => Token::JobOr,
            Token::PipeStdout => Token::PipeStdout,
            Token::PipeAll => Token::PipeAll,
            Token::PipeStderr => Token::PipeStderr,
            Token::GroupOpen => Token::GroupOpen,
            Token::GroupClose => Token::GroupClose,
            Token::Word(s) => Token::Word(s.clone()),
            Token::IdRef(k, n) => Token::IdRef(*k, *n),
            Token::Whitespace(s) => Token::Whitespace(s.clone()),
            Token::Newline => Token::Newline,
            Token::Eof => Token::Eof,
        }
    }
}

impl Clone for Spanned {
    fn clone(&self) -> (r: Spanned)
        ensures
            r == *self,
    {
        Spanned { token: self.token.clone(), span: self.span }
    }
}

impl Span {
    pub fn new(start: usize, end: usize) -> (r: Span)
        ensures
            r == (Span { start, end }),
    {
        Span { start, end }
    }
}

/// The letter that stands before the number of an ID.
pub open spec fn id_letter(k: IdKind) -> Text {
    match k {
        IdKind::Job => "J"@,
        IdKind::Cron => "C"@,
    }
}

/// An ID as text: its letter and its number.
pub open spec fn id_text(k: IdKind, n: u32) -> Text {
    id_letter(k) + text::decimal(n as nat)
}

impl IdKind {
    /// The letter that stands before the number of an ID.
    pub fn letter(self) -> (r: &'static str)
        ensures
            r@ == id_letter(self),
    {
        match self {
            IdKind::Job => "J",
            IdKind::Cron => "C",
        }
    }
}

/// An ID as text: its letter and its number.
pub fn id_string(k: IdKind, n: u32) -> (r: String)
    ensures
        r@ == id_text(k, n),
{
    text::concat2(k.letter(), text::decimal_u64(n as u64).as_str())
}

/// The operator that a token stands for, or nothing.
pub open spec fn operator_of(t: TokenModel) -> Text {
    match t {
        TokenModel::SerialThen => "->"@,
        TokenModel::SerialAlways => "~>"@,
        TokenModel::ParallelAll => "|||"@,
        TokenModel::ParallelRace => "|?|"@,
        TokenModel::JobAnd => "&&"@,
        TokenModel::JobOr => "||"@,
        TokenModel::PipeStdout => "|>"@,
        TokenModel::PipeAll => "|&>"@,
        TokenModel::PipeStderr => "|!>"@,
        _ => ""@,
    }
}

/// A token as it is shown in messages.
pub open spec fn token_text(t: TokenModel) -> Text {
    match t {
        TokenModel::Colon => ":"@,
        TokenModel::Command(s) => s,
        TokenModel::ModeParenOpen => "("@,
        TokenModel::GroupOpen => "("@,
        TokenModel::ModeParenClose => ")"@,
        TokenModel::GroupClose => ")"@,
        TokenModel::ParamEq => "="@,
        TokenModel::ParamValue(ValueModel::Str(s)) => "Str("@ + text::debug_text(s) + ")"@,
        TokenModel::ParamValue(ValueModel::Bool(true)) => "Bool(true)"@,
        TokenModel::ParamValue(ValueModel::Bool(false)) => "Bool(false)"@,
        TokenModel::Comma => ","@,
        TokenModel::Word(s) => s,
        TokenModel::IdRef(k, n) => id_text(k, n),
        TokenModel::Whitespace(s) => s,
        TokenModel::Newline => "\\n"@,
        TokenModel::Eof => "<EOF>"@,
        _ => operator_of(t),
    }
}

impl Token {
    /// The operator that the token stands for, or nothing.
    pub fn operator_text(&self) -> (r: &'static str)
        ensures
            r@ == operator_of(self@),
    {
        match self {
            Token::SerialThen => "->",
            Token::SerialAlways => "~>",
            Token::ParallelAll => "|||",
            Token::ParallelRace => "|?|",
            Token::JobAnd => "&&",
            Token::JobOr => "||",
            Token::PipeStdout => "|>",
            Token::PipeAll => "|&>",
            Token::PipeStderr => "|!>",
            _ => "",
        }
    }

    /// The token as it is shown in messages.
    pub fn text(&self) -> (r: String)
        ensures
            r@ == token_text(self@),
    {
        match self {
            Token::Colon => ":".to_owned(),
            Token::Command(s) => s.clone(),
            Token::ModeParenOpen => "(".to_owned(),
            Token::GroupOpen => "(".to_owned(),
            Token::ModeParenClose => ")".to_owned(),
            Token::GroupClose => ")".to_owned(),
            Token::ParamEq => "=".to_owned(),
            Token::ParamValue(v) => match v {
                Value::Str(s) => text::concat3("Str(", text::debug_str(s.as_str()).as_str(), ")"),
                Value::Bool(b) => if *b {
                    "Bool(true)".to_owned()
                } else {
                    "Bool(false)".to_owned()
                },
            },
            Token::Comma => ",".to_owned(),
            Token::Word(s) => s.clone(),
            Token::IdRef(k, n) => id_string(*k, *n),
            Token::Whitespace(s) => s.clone(),
            Token::Newline => "\\n".to_owned(),
            Token::Eof => "<EOF>".to_owned(),
            _ => self.operator_text().to_owned(),
        }
    }
}

} // verus!
