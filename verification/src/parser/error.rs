//! Why input is no command.

use vstd::prelude::*;
use vstd::string::*;

use super::token::Span;
use crate::text;
use crate::text::Text;

verus! {

/// Parser error.
#[derive(Debug, PartialEq)]
pub struct ParseError {
    pub span: Span,
    pub message: String,
    pub kind: ParseErrorKind,
    pub suggestions: Vec<String>,
}

#[derive(Debug, Clone, Copy, PartialEq, Eq, Structural)]
pub enum ParseErrorKind {
    UnknownCommand,
    InvalidModeParam,
    UnexpectedToken,
    MissingArgument,
    InvalidIdRef,
    UnmatchedParen,
    InvalidCronSchedule,
}

/// A parser error over character sequences.
pub struct ErrModel {
    pub span: Span,
    pub message: Text,
    pub kind: ParseErrorKind,
    pub suggestions: Seq<Text>,
}

impl View for ParseError {
    type V = ErrModel;

    open spec fn view(&self) -> ErrModel {
        ErrModel {
            span: self.span,
            message: self.message@,
            kind: self.kind,
            suggestions: text::texts(self.suggestions@),
        }
    }
}

/// An error with no suggestions.
pub open spec fn plain_error(span: Span, message: Text, kind: ParseErrorKind) -> ErrModel {
    ErrModel { span, message, kind, suggestions: Seq::empty() }
}

/// An error with one suggestion.
pub open spec fn error_with(span: Span, message: Text, kind: ParseErrorKind, hint: Text) -> ErrModel {
    ErrModel { span, message, kind, suggestions: seq![hint] }
}

/// An error with two suggestions.
pub open spec fn error_with2(
    span: Span,
    message: Text,
    kind: ParseErrorKind,
    a: Text,
    b: Text,
) -> ErrModel {
    ErrModel { span, message, kind, suggestions: seq![a, b] }
}

impl ParseError {
    /// An error with no suggestions.
    pub fn plain(span: Span, message: String, kind: ParseErrorKind) -> (r: ParseError)
        ensures
            r@ == plain_error(span, message@, kind),
    {
        let suggestions: Vec<String> = Vec::new();
        assert(text::texts(suggestions@) =~= Seq::<Text>::empty());
        ParseError { span, message, kind, suggestions }
    }

    /// An error with one suggestion.
    pub fn with(span: Span, message: String, kind: ParseErrorKind, hint: String) -> (r: ParseError)
        ensures
            r@ == error_with(span, message@, kind, hint@),
    {
        ParseError { span, message, kind, suggestions: text::texts1(hint) }
    }

    /// An error with two suggestions.
    pub fn with2(
        span: Span,
        message: String,
        kind: ParseErrorKind,
        a: String,
        b: String,
    ) -> (r: ParseError)
        ensures
            r@ == error_with2(span, message@, kind, a@, b@),
    {
        ParseError { span, message, kind, suggestions: text::texts2(a, b) }
    }

    /// The error as one line.
    pub fn text(&self) -> (r: String)
        ensures
            r@ == "parse error at byte Span { start: "@ + text::decimal(self.span.start as nat)
                + ", end: "@ + text::decimal(self.span.end as nat) + " }: "@ + self.message@,
    {
        let mut s = text::concat5(
            "parse error at byte Span { start: ",
            text::decimal_usize(self.span.start).as_str(),
            ", end: ",
            text::decimal_usize(self.span.end).as_str(),
            " }: ",
        );
        s.append(self.message.as_str());
        s
    }
}

} // verus!
