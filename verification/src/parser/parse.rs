//! Recursive descent parser: tokens → tree.

use vstd::prelude::*;
use vstd::string::*;

use super::ast::{
    item_models, param_models, seg_models, Argument, Ast, AstModel, ChainNode, ItemModel, JobExpr,
    PipeSegment, Pipeline, ScriptItemAst,
};
use super::error::{ErrModel, ParseError, ParseErrorKind};
use super::grammar;
use super::grammar::{ChunkModel, Parsed};
use super::token::{
    id_string, models, IdKind, Span, Spanned, SpannedModel, Token, Value, ValueModel,
};
use super::tokenizer::Tokenizer;
use crate::command_spec::{
    command_spec, command_suggestions, mode_param_spec, mode_param_spec_for_command,
    CommandArgKind, CommandIdKind, CommandSpec, ModeParamSpec, ModeParamValueKind,
};
use crate::pipeline::{ParallelOp, PipeOp, SegModel, SerialOp};
use crate::text;
use crate::text::Text;

verus! {

/// Recursive descent parser.
pub struct Parser<'a> {
    tokens: Vec<Spanned>,
    /// Current position: an index into `tokens`.
    pos: usize,
    /// Input length for spans at the end.
    input_len: usize,
    /// Input for raw-text extraction.
    input: &'a str,
}

struct ScriptChunk {
    tokens: Vec<Spanned>,
    source: String,
    span: Span,
}

impl ScriptChunk {
    spec fn model(self) -> ChunkModel {
        ChunkModel { tokens: models(self.tokens@), source: self.source@, span: self.span }
    }
}

spec fn chunk_models(v: Seq<ScriptChunk>) -> Seq<ChunkModel> {
    v.map_values(|c: ScriptChunk| c.model())
}

/// Whether an executable result is what the grammar says.
pub open spec fn agrees<T, M>(
    r: Result<T, ParseError>,
    view: spec_fn(T) -> M,
    pos: int,
    spec: Parsed<M>,
) -> bool {
    match r {
        Ok(x) => spec == Ok::<(M, int), ErrModel>((view(x), pos)),
        Err(e) => spec == Err::<(M, int), ErrModel>(e@),
    }
}

impl<'a> Parser<'a> {
    spec fn ts(self) -> Seq<SpannedModel> {
        models(self.tokens@)
    }

    spec fn wf(self) -> bool {
        self.pos <= self.tokens@.len()
    }

    /// Only the position differs.
    spec fn moved_from(self, o: Parser<'a>) -> bool {
        &&& self.tokens == o.tokens
        &&& self.input_len == o.input_len
        &&& self.input == o.input
        &&& self.wf()
    }

    /// The tree of an input line or of several.
    pub fn parse(input: &str) -> (r: Result<Ast, ParseError>)
        ensures
            match r {
                Ok(ast) => grammar::parse(input@) == Ok::<AstModel, ErrModel>(ast.model()),
                Err(e) => grammar::parse(input@) == Err::<AstModel, ErrModel>(e@),
            },
    {
        match tokenize_for_parser(input) {
            Err(e) => Err(e),
            Ok(tokens) => Self::parse_tokens(tokens, input),
        }
    }

    /// The script of a `.cue` file.
    pub fn parse_file_script(input: &str) -> (r: Result<Ast, ParseError>)
        ensures
            match r {
                Ok(ast) => grammar::parse_file(input@) == Ok::<AstModel, ErrModel>(ast.model()),
                Err(e) => grammar::parse_file(input@) == Err::<AstModel, ErrModel>(e@),
            },
    {
        let normalized = normalize_file_script(input);
        match tokenize_for_parser(normalized.as_str()) {
            Err(e) => Err(e),
            Ok(tokens) => Self::parse_tokens_as_script(tokens, normalized.as_str()),
        }
    }

    fn parse_tokens(tokens: Vec<Spanned>, input: &str) -> (r: Result<Ast, ParseError>)
        requires
            grammar::parser_tokens(input@) == Ok::<Seq<SpannedModel>, ErrModel>(models(tokens@)),
        ensures
            match r {
                Ok(ast) => grammar::parse(input@) == Ok::<AstModel, ErrModel>(ast.model()),
                Err(e) => grammar::parse(input@) == Err::<AstModel, ErrModel>(e@),
            },
    {
        let input_len = text::str_byte_len(input);
        let mut chunks = split_top_level_statements(&tokens, input);
        assert(chunk_models(chunks@).len() == chunks@.len());
        if chunks.len() == 0 {
            return Ok(Ast::BareInput { argument: Argument::Empty, span: Span::new(0, 0) });
        }
        if chunks.len() == 1 {
            let chunk = chunks.swap_remove(0);
            let mut parser = Parser { tokens: chunk.tokens, pos: 0, input_len, input };
            return parser.parse_single_statement();
        }
        parse_script(chunks, input, input_len)
    }

    fn parse_tokens_as_script(tokens: Vec<Spanned>, input: &str) -> (r: Result<Ast, ParseError>)
        requires
            grammar::parser_tokens(input@) == Ok::<Seq<SpannedModel>, ErrModel>(models(tokens@)),
        ensures
            match r {
                Ok(ast) => {
                    &&& grammar::statements(models(tokens@), input@).len() > 0
                    &&& grammar::script(
                        grammar::statements(models(tokens@), input@),
                        text::byte_len(input@) as usize,
                        input@,
                    ) == Ok::<AstModel, ErrModel>(ast.model())
                },
                Err(e) => if grammar::statements(models(tokens@), input@).len() == 0 {
                    e@ == super::error::error_with(
                        Span { start: 0, end: text::byte_len(input@) as usize },
                        "empty .cue script"@,
                        ParseErrorKind::MissingArgument,
                        "add at least one top-level item"@,
                    )
                } else {
                    grammar::script(
                        grammar::statements(models(tokens@), input@),
                        text::byte_len(input@) as usize,
                        input@,
                    ) == Err::<AstModel, ErrModel>(e@)
                },
            },
    {
        let input_len = text::str_byte_len(input);
        let chunks = split_top_level_statements(&tokens, input);
        assert(chunk_models(chunks@).len() == chunks@.len());
        if chunks.len() == 0 {
            return Err(
                ParseError::with(
                    Span::new(0, input_len),
                    "empty .cue script".to_owned(),
                    ParseErrorKind::MissingArgument,
                    "add at least one top-level item".to_owned(),
                ),
            );
        }
        parse_script(chunks, input, input_len)
    }

    fn peek(&self) -> (r: &Token)
        requires
            self.wf(),
        ensures
            r@ == grammar::peek(self.ts(), self.pos as int),
            !(r@ is Eof) ==> self.pos < self.tokens@.len(),
            self.pos < self.tokens@.len() ==> *r == self.tokens@[self.pos as int].token,
    {
        if self.pos < self.tokens.len() {
            &self.tokens[self.pos].token
        } else {
            &Token::Eof
        }
    }

    fn peek_span(&self) -> (r: Span)
        ensures
            r == grammar::peek_span(self.ts(), self.pos as int, self.input_len),
    {
        if self.pos < self.tokens.len() {
            self.tokens[self.pos].span
        } else {
            Span::new(self.input_len, self.input_len)
        }
    }

    fn advance(&mut self)
        requires
            old(self).pos < old(self).tokens.len(),
        ensures
            final(self).moved_from(*old(self)),
            final(self).pos == old(self).pos + 1,
    {
        self.pos = self.pos + 1;
    }

    fn at_end(&self) -> (r: bool)
        requires
            self.wf(),
        ensures
            r == (grammar::peek(self.ts(), self.pos as int) is Eof),
            !r ==> self.pos < self.tokens@.len(),
    {
        match self.peek() {
            Token::Eof => true,
            _ => false,
        }
    }

    fn parse_single_statement(&mut self) -> (r: Result<Ast, ParseError>)
        requires
            old(self).pos == 0,
        ensures
            match r {
                Ok(ast) => grammar::single_statement(
                    old(self).ts(),
                    old(self).input_len,
                    old(self).input@,
                ) == Ok::<AstModel, ErrModel>(ast.model()),
                Err(e) => grammar::single_statement(
                    old(self).ts(),
                    old(self).input_len,
                    old(self).input@,
                ) == Err::<AstModel, ErrModel>(e@),
            },
    {
        match self.parse_statement() {
            Err(e) => Err(e),
            Ok(ast) => {
                if !self.at_end() {
                    return Err(
                        ParseError::plain(
                            self.peek_span(),
                            text::concat2("unexpected token ", self.peek().text().as_str()),
                            ParseErrorKind::UnexpectedToken,
                        ),
                    );
                }
                Ok(ast)
            },
        }
    }

    fn parse_statement(&mut self) -> (r: Result<Ast, ParseError>)
        requires
            old(self).pos == 0,
        ensures
            final(self).moved_from(*old(self)),
            agrees(
                r,
                |a: Ast| a.model(),
                final(self).pos as int,
                grammar::statement(old(self).ts(), old(self).input_len, old(self).input@),
            ),
    {
        let span_start = self.peek_span().start;
        let first = self.peek().clone();
        match first {
            Token::Command(name) => {
                self.advance();
                self.parse_command(name, span_start)
            },
            Token::Eof => Ok(
                Ast::BareInput {
                    argument: Argument::Empty,
                    span: Span::new(span_start, span_start),
                },
            ),
            _ => match self.parse_chain() {
                Err(e) => Err(e),
                Ok(chain) => {
                    let span_end = self.peek_span().end;
                    Ok(
                        Ast::BareInput {
                            argument: Argument::Chain(chain),
                            span: Span::new(span_start, span_end),
                        },
                    )
                },
            },
        }
    }

    fn parse_command(&mut self, name: String, span_start: usize) -> (r: Result<Ast, ParseError>)
        requires
            old(self).wf(),
        ensures
            final(self).moved_from(*old(self)),
            agrees(
                r,
                |a: Ast| a.model(),
                final(self).pos as int,
                grammar::command(
                    old(self).ts(),
                    old(self).pos as int,
                    old(self).input_len,
                    old(self).input@,
                    name@,
                    span_start,
                ),
            ),
    {
        let spec = match command_spec(name.as_str()) {
            Some(spec) => spec,
            None => {
                return Err(unknown_command(name.as_str(), self.peek_span()));
            },
        };
        let has_params = match self.peek() {
            Token::ModeParenOpen => true,
            _ => false,
        };
        let mode_params = if has_params {
            if !spec.accepts_mode_params() {
                return Err(
                    ParseError::with(
                        self.peek_span(),
                        text::concat3("`:", name.as_str(), "` does not accept mode params"),
                        ParseErrorKind::InvalidModeParam,
                        spec.usage.to_owned(),
                    ),
                );
            }
            self.advance();
            match self.parse_mode_params(name.as_str()) {
                Ok(params) => params,
                Err(e) => {
                    return Err(e);
                },
            }
        } else {
            let none: Vec<(String, Value)> = Vec::new();
            assert(param_models(none@) =~= Seq::<(Text, ValueModel)>::empty());
            none
        };
        match self.parse_argument_for_command(name.as_str(), spec) {
            Err(e) => Err(e),
            Ok(argument) => {
                let span_end = self.peek_span().start;
                Ok(
                    Ast::Command {
                        name,
                        mode_params,
                        argument,
                        span: Span::new(span_start, span_end),
                    },
                )
            },
        }
    }

    fn expected(&self, what: &str) -> (r: ParseError)
        requires
            self.wf(),
        ensures
            r@ == grammar::expected_error(self.ts(), self.pos as int, self.input_len, what@),
    {
        ParseError::plain(
            self.peek_span(),
            text::concat4("expected ", what, ", found ", self.peek().text().as_str()),
            ParseErrorKind::InvalidModeParam,
        )
    }

    /// `=` and the value behind it.
    fn parse_param_value(&mut self) -> (r: Result<(Value, Span), ParseError>)
        requires
            old(self).wf(),
        ensures
            final(self).moved_from(*old(self)),
            r is Ok ==> final(self).pos > old(self).pos,
            agrees(
                r,
                |v: (Value, Span)| (v.0@, v.1),
                final(self).pos as int,
                grammar::param_value(old(self).ts(), old(self).pos as int, old(self).input_len),
            ),
    {
        let is_eq = match self.peek() {
            Token::ParamEq => true,
            _ => false,
        };
        if !is_eq {
            return Err(
                ParseError::plain(
                    self.peek_span(),
                    text::concat4("expected ", "=", ", found ", self.peek().text().as_str()),
                    ParseErrorKind::UnexpectedToken,
                ),
            );
        }
        self.advance();
        let span = self.peek_span();
        let token = self.peek().clone();
        match token {
            Token::ParamValue(v) => {
                self.advance();
                Ok((v, span))
            },
            Token::Word(w) => {
                self.advance();
                Ok((Value::Str(w), span))
            },
            _ => Err(self.expected("parameter value")),
        }
    }

    /// A `need.<resource>` parameter. Only the shape of the name and the kind
    /// of the value are checked here; which resources exist is known where
    /// they are provided.
    fn parse_need_param(&mut self, key: String, key_span: Span) -> (r: Result<
        (String, Value),
        ParseError,
    >)
        requires
            old(self).wf(),
        ensures
            final(self).moved_from(*old(self)),
            r is Ok ==> final(self).pos > old(self).pos,
            agrees(
                r,
                |v: (String, Value)| (v.0@, v.1@),
                final(self).pos as int,
                grammar::need_param(
                    old(self).ts(),
                    old(self).pos as int,
                    old(self).input_len,
                    key@,
                    key_span,
                ),
            ),
    {
        if text::str_eq(key.as_str(), "need.") {
            return Err(
                ParseError::with2(
                    key_span,
                    "`need.` requires a key suffix (e.g. `need.gpu_mem=24GiB`)".to_owned(),
                    ParseErrorKind::InvalidModeParam,
                    "need.gpu=1".to_owned(),
                    "need.gpu_mem=24GiB".to_owned(),
                ),
            );
        }
        match self.parse_param_value() {
            Err(e) => Err(e),
            Ok((value, value_span)) => {
                let is_str = match value {
                    Value::Str(_) => true,
                    Value::Bool(_) => false,
                };
                if !is_str {
                    return Err(
                        ParseError::with2(
                            value_span,
                            text::concat3(
                                "resource need `",
                                key.as_str(),
                                "` expects a string quantity (e.g. 1 or 24GiB), got a boolean",
                            ),
                            ParseErrorKind::InvalidModeParam,
                            text::concat2(key.as_str(), "=1"),
                            text::concat2(key.as_str(), "=24GiB"),
                        ),
                    );
                }
                Ok((key, value))
            },
        }
    }

    /// A registered parameter of `command`.
    fn parse_plain_param(&mut self, command: &str, key: String, key_span: Span) -> (r: Result<
        (String, Value),
        ParseError,
    >)
        requires
            old(self).wf(),
        ensures
            final(self).moved_from(*old(self)),
            r is Ok ==> final(self).pos > old(self).pos,
            agrees(
                r,
                |v: (String, Value)| (v.0@, v.1@),
                final(self).pos as int,
                grammar::plain_param(
                    old(self).ts(),
                    old(self).pos as int,
                    old(self).input_len,
                    command@,
                    key@,
                    key_span,
                ),
            ),
    {
        if mode_param_spec(key.as_str()).is_none() {
            return Err(
                ParseError::plain(
                    key_span,
                    text::concat3("unknown mode parameter `", key.as_str(), "`"),
                    ParseErrorKind::InvalidModeParam,
                ),
            );
        }
        let param = match mode_param_spec_for_command(command, key.as_str()) {
            Some(param) => param,
            None => {
                return Err(
                    ParseError::plain(
                        key_span,
                        text::concat5(
                            "mode parameter `",
                            key.as_str(),
                            "` is not supported by `:",
                            command,
                            "`",
                        ),
                        ParseErrorKind::InvalidModeParam,
                    ),
                );
            },
        };
        match self.parse_param_value() {
            Err(e) => Err(e),
            Ok((value, value_span)) => match validate_mode_param_value(&param, &value, value_span) {
                Err(e) => Err(e),
                Ok(()) => Ok((key, value)),
            },
        }
    }

    /// The parameters up to the closing parenthesis.
    fn parse_mode_params(&mut self, command: &str) -> (r: Result<Vec<(String, Value)>, ParseError>)
        requires
            old(self).wf(),
        ensures
            final(self).moved_from(*old(self)),
            agrees(
                r,
                |v: Vec<(String, Value)>| param_models(v@),
                final(self).pos as int,
                grammar::mode_params(
                    old(self).ts(),
                    old(self).pos as int,
                    old(self).input_len,
                    command@,
                    Seq::empty(),
                ),
            ),
    {
        let ghost start = *self;
        let mut params: Vec<(String, Value)> = Vec::new();
        assert(param_models(params@) =~= Seq::<(Text, ValueModel)>::empty());
        loop
            invariant
                start == *old(self),
                self.moved_from(start),
                grammar::mode_params(
                    start.ts(),
                    start.pos as int,
                    start.input_len,
                    command@,
                    Seq::empty(),
                ) == grammar::mode_params(
                    start.ts(),
                    self.pos as int,
                    start.input_len,
                    command@,
                    param_models(params@),
                ),
            decreases self.tokens@.len() - self.pos,
        {
            let key_span = self.peek_span();
            let token = self.peek().clone();
            match token {
                Token::ModeParenClose => {
                    self.advance();
                    return Ok(params);
                },
                Token::Eof => {
                    return Err(
                        ParseError::plain(
                            self.peek_span(),
                            "unterminated mode params".to_owned(),
                            ParseErrorKind::UnmatchedParen,
                        ),
                    );
                },
                Token::Comma => {
                    self.advance();
                },
                Token::Word(key) => {
                    let need = text::str_starts_with(key.as_str(), "need.");
                    self.advance();
                    let parsed = if need {
                        self.parse_need_param(key, key_span)
                    } else {
                        self.parse_plain_param(command, key, key_span)
                    };
                    match parsed {
                        Err(e) => {
                            return Err(e);
                        },
                        Ok(param) => {
                            proof {
                                assert(param_models(params@.push(param)) =~= param_models(
                                    params@,
                                ).push((param.0@, param.1@)));
                            }
                            params.push(param);
                        },
                    }
                },
                _ => {
                    return Err(self.expected("parameter name"));
                },
            }
        }
    }

    /// The argument that a command takes according to the registry.
    fn parse_argument_for_command(&mut self, name: &str, spec: CommandSpec) -> (r: Result<
        Argument,
        ParseError,
    >)
        requires
            old(self).wf(),
        ensures
            final(self).moved_from(*old(self)),
            agrees(
                r,
                |a: Argument| a@,
                final(self).pos as int,
                grammar::argument(
                    old(self).ts(),
                    old(self).pos as int,
                    old(self).input_len,
                    old(self).input@,
                    name@,
                    spec.arg_kind,
                ),
            ),
    {
        match spec.arg_kind {
            CommandArgKind::Chain => {
                if self.at_end() {
                    return Err(
                        ParseError::with(
                            self.peek_span(),
                            text::concat3("`:", name, "` requires a command"),
                            ParseErrorKind::MissingArgument,
                            text::concat3(":", name, " cargo test"),
                        ),
                    );
                }
                match self.parse_chain() {
                    Ok(chain) => Ok(Argument::Chain(chain)),
                    Err(e) => Err(e),
                }
            },
            CommandArgKind::Cron => {
                if self.at_end() {
                    return Err(
                        ParseError::with(
                            self.peek_span(),
                            text::concat3("`:", name, "` requires a schedule expression"),
                            ParseErrorKind::MissingArgument,
                            ":cron every 5m cargo test".to_owned(),
                        ),
                    );
                }
                match self.parse_chain() {
                    Ok(chain) => Ok(Argument::Chain(chain)),
                    Err(e) => Err(e),
                }
            },
            CommandArgKind::Tail(allowed) => self.parse_tail_argument(name, allowed),
            CommandArgKind::Id(allowed) => self.parse_id_argument(name, allowed),
            CommandArgKind::Text => {
                let text = self.consume_remaining_raw_text();
                if text.as_str().is_empty() {
                    let message = if text::str_eq(name, "send") {
                        "`:send` requires a target and input".to_owned()
                    } else {
                        text::concat3(":", name, " requires an argument")
                    };
                    return Err(
                        ParseError::plain(
                            self.peek_span(),
                            message,
                            ParseErrorKind::MissingArgument,
                        ),
                    );
                }
                Ok(Argument::Text(text))
            },
            CommandArgKind::TargetText(allowed) => {
                match self.validate_text_target(name, allowed) {
                    Err(e) => {
                        return Err(e);
                    },
                    Ok(()) => {},
                }
                let text = self.consume_remaining_raw_text();
                if text.as_str().is_empty() {
                    return Err(
                        target_missing(
                            self.peek_span(),
                            text::concat3("`:", name, "` requires a target and input"),
                            ParseErrorKind::MissingArgument,
                            name,
                            allowed,
                        ),
                    );
                }
                Ok(Argument::Text(text))
            },
            CommandArgKind::OptionalId(allowed) => {
                let is_id = match self.peek() {
                    Token::IdRef(_, _) => true,
                    _ => false,
                };
                if is_id {
                    self.parse_id_argument(name, allowed)
                } else {
                    Ok(Argument::Empty)
                }
            },
            CommandArgKind::Empty => Ok(Argument::Empty),
            CommandArgKind::OptionalText => {
                let text = self.consume_remaining_text();
                if text.as_str().is_empty() {
                    Ok(Argument::Empty)
                } else {
                    Ok(Argument::Text(text))
                }
            },
        }
    }

    fn parse_id_argument(&mut self, name: &str, allowed: CommandIdKind) -> (r: Result<
        Argument,
        ParseError,
    >)
        requires
            old(self).wf(),
        ensures
            final(self).moved_from(*old(self)),
            agrees(
                r,
                |a: Argument| a@,
                final(self).pos as int,
                grammar::id_argument(
                    old(self).ts(),
                    old(self).pos as int,
                    old(self).input_len,
                    name@,
                    allowed,
                ),
            ),
    {
        let token = self.peek().clone();
        match token {
            Token::IdRef(kind, n) => match validate_id_kind(name, allowed, kind, self.peek_span()) {
                Err(e) => Err(e),
                Ok(()) => {
                    self.advance();
                    Ok(Argument::IdRef(kind, n))
                },
            },
            _ => Err(
                ParseError::with(
                    self.peek_span(),
                    id_missing(name, allowed),
                    ParseErrorKind::InvalidIdRef,
                    text::concat4(":", name, " ", allowed.first_example()),
                ),
            ),
        }
    }

    fn parse_tail_argument(&mut self, name: &str, allowed: CommandIdKind) -> (r: Result<
        Argument,
        ParseError,
    >)
        requires
            old(self).wf(),
        ensures
            final(self).moved_from(*old(self)),
            agrees(
                r,
                |a: Argument| a@,
                final(self).pos as int,
                grammar::tail_argument(
                    old(self).ts(),
                    old(self).pos as int,
                    old(self).input_len,
                    name@,
                    allowed,
                ),
            ),
    {
        let token = self.peek().clone();
        match token {
            Token::IdRef(kind, n) => match validate_id_kind(name, allowed, kind, self.peek_span()) {
                Err(e) => Err(e),
                Ok(()) => {
                    self.advance();
                    let next = self.peek().clone();
                    let bytes: Option<usize> = match next {
                        Token::Word(w) => match parse_usize(w.as_str()) {
                            Some(b) => {
                                self.advance();
                                Some(b)
                            },
                            None => None,
                        },
                        _ => None,
                    };
                    Ok(Argument::TailRef(kind, n, bytes))
                },
            },
            _ => Err(
                ParseError::with2(
                    self.peek_span(),
                    id_missing(name, allowed),
                    ParseErrorKind::InvalidIdRef,
                    text::concat4(":", name, " ", allowed.first_example()),
                    text::concat5(":", name, " ", allowed.first_example(), " 1024"),
                ),
            ),
        }
    }

    fn validate_text_target(&self, name: &str, allowed: CommandIdKind) -> (r: Result<
        (),
        ParseError,
    >)
        requires
            self.wf(),
        ensures
            match r {
                Ok(_) => grammar::text_target(
                    self.ts(),
                    self.pos as int,
                    self.input_len,
                    name@,
                    allowed,
                ) is None,
                Err(e) => grammar::text_target(
                    self.ts(),
                    self.pos as int,
                    self.input_len,
                    name@,
                    allowed,
                ) == Some(e@),
            },
    {
        let span = self.peek_span();
        match self.peek() {
            Token::IdRef(kind, _) => validate_id_kind(name, allowed, *kind, span),
            Token::Eof => Err(
                target_missing(
                    span,
                    text::concat3("`:", name, "` requires a target and input"),
                    ParseErrorKind::MissingArgument,
                    name,
                    allowed,
                ),
            ),
            _ => Err(
                target_missing(
                    span,
                    text::concat5(":", name, " requires a target ID (", allowed.display(), ")"),
                    ParseErrorKind::InvalidIdRef,
                    name,
                    allowed,
                ),
            ),
        }
    }

    /// Skips to the end of the tokens.
    fn skip_to_end(&mut self)
        requires
            old(self).wf(),
        ensures
            final(self).moved_from(*old(self)),
            final(self).pos == grammar::eof_from(old(self).ts(), old(self).pos as int),
    {
        let ghost start = *self;
        while !self.at_end()
            invariant
                start == *old(self),
                self.moved_from(start),
                grammar::eof_from(start.ts(), start.pos as int) == grammar::eof_from(
                    start.ts(),
                    self.pos as int,
                ),
            decreases self.tokens@.len() - self.pos,
        {
            self.advance();
        }
    }

    /// All remaining tokens as one text, with single spaces between them.
    fn consume_remaining_text(&mut self) -> (r: String)
        requires
            old(self).wf(),
        ensures
            final(self).moved_from(*old(self)),
            final(self).pos == grammar::eof_from(old(self).ts(), old(self).pos as int),
            r@ == text::join(
                grammar::shown_texts(old(self).ts(), old(self).pos as int, final(self).pos as int),
                " "@,
            ),
    {
        let ghost start = *self;
        let mut parts: Vec<String> = Vec::new();
        assert(text::texts(parts@) =~= grammar::shown_texts(start.ts(), start.pos as int, start.pos as int));
        while !self.at_end()
            invariant
                start == *old(self),
                self.moved_from(start),
                start.pos <= self.pos,
                grammar::eof_from(start.ts(), start.pos as int) == grammar::eof_from(
                    start.ts(),
                    self.pos as int,
                ),
                text::texts(parts@) == grammar::shown_texts(
                    start.ts(),
                    start.pos as int,
                    self.pos as int,
                ),
            decreases self.tokens@.len() - self.pos,
        {
            let part = self.peek().text();
            proof {
                assert(text::texts(parts@.push(part)) =~= text::texts(parts@).push(part@));
                assert(text::texts(parts@).push(part@) =~= grammar::shown_texts(
                    start.ts(),
                    start.pos as int,
                    self.pos + 1,
                ));
            }
            parts.push(part);
            self.advance();
        }
        text::join_strings(&parts, " ")
    }

    /// The remaining input as it was written.
    fn consume_remaining_raw_text(&mut self) -> (r: String)
        requires
            old(self).wf(),
        ensures
            final(self).moved_from(*old(self)),
            final(self).pos == grammar::eof_from(old(self).ts(), old(self).pos as int),
            r@ == grammar::raw_text(old(self).ts(), old(self).pos as int, old(self).input@),
    {
        if self.at_end() {
            return String::new();
        }
        let start = self.tokens[self.pos].span.start;
        let end_pos = self.tokens[self.tokens.len() - 1].span.end;
        self.skip_to_end();
        text::chars_byte_slice(&text::chars_of(self.input), start, end_pos)
    }

    // ── Chain grammar ──

    /// chain = parallel (serial_op parallel)*
    fn parse_chain(&mut self) -> (r: Result<ChainNode, ParseError>)
        requires
            old(self).wf(),
        ensures
            final(self).moved_from(*old(self)),
            r is Ok ==> final(self).pos > old(self).pos,
            agrees(
                r,
                |c: ChainNode| c.model(),
                final(self).pos as int,
                grammar::chain(old(self).ts(), old(self).pos as int, old(self).input_len),
            ),
        decreases old(self).tokens@.len() - old(self).pos, 6int,
    {
        let ghost start = *self;
        let mut left = match self.parse_parallel() {
            Ok(c) => c,
            Err(e) => {
                return Err(e);
            },
        };
        loop
            invariant
                start == *old(self),
                self.moved_from(start),
                self.pos > start.pos,
                grammar::chain(start.ts(), start.pos as int, start.input_len)
                    == grammar::chain_rest(
                    start.ts(),
                    self.pos as int,
                    start.input_len,
                    left.model(),
                ),
            decreases self.tokens@.len() - self.pos,
        {
            let op = match self.peek() {
                Token::SerialThen => SerialOp::Then,
                Token::SerialAlways => SerialOp::Always,
                _ => {
                    return Ok(left);
                },
            };
            self.advance();
            let right = match self.parse_parallel() {
                Ok(c) => c,
                Err(e) => {
                    return Err(e);
                },
            };
            left = ChainNode::Serial { op, left: Box::new(left), right: Box::new(right) };
        }
    }

    /// parallel = job_expr (parallel_op job_expr)*
    fn parse_parallel(&mut self) -> (r: Result<ChainNode, ParseError>)
        requires
            old(self).wf(),
        ensures
            final(self).moved_from(*old(self)),
            r is Ok ==> final(self).pos > old(self).pos,
            agrees(
                r,
                |c: ChainNode| c.model(),
                final(self).pos as int,
                grammar::parallel(old(self).ts(), old(self).pos as int, old(self).input_len),
            ),
        decreases old(self).tokens@.len() - old(self).pos, 4int,
    {
        let ghost start = *self;
        let mut left = match self.parse_job_expr() {
            Ok(c) => c,
            Err(e) => {
                return Err(e);
            },
        };
        loop
            invariant
                start == *old(self),
                self.moved_from(start),
                self.pos > start.pos,
                grammar::parallel(start.ts(), start.pos as int, start.input_len)
                    == grammar::parallel_rest(
                    start.ts(),
                    self.pos as int,
                    start.input_len,
                    left.model(),
                ),
            decreases self.tokens@.len() - self.pos,
        {
            let op = match self.peek() {
                Token::ParallelAll => ParallelOp::All,
                Token::ParallelRace => ParallelOp::Race,
                _ => {
                    return Ok(left);
                },
            };
            self.advance();
            let right = match self.parse_job_expr() {
                Ok(c) => c,
                Err(e) => {
                    return Err(e);
                },
            };
            left = ChainNode::Parallel { op, left: Box::new(left), right: Box::new(right) };
        }
    }

    /// job_expr = pipeline (("&&" | "||") pipeline)*
    fn parse_job_expr(&mut self) -> (r: Result<ChainNode, ParseError>)
        requires
            old(self).wf(),
        ensures
            final(self).moved_from(*old(self)),
            r is Ok ==> final(self).pos > old(self).pos,
            agrees(
                r,
                |c: ChainNode| c.model(),
                final(self).pos as int,
                grammar::job_expr(old(self).ts(), old(self).pos as int, old(self).input_len),
            ),
        decreases old(self).tokens@.len() - old(self).pos, 2int,
    {
        let ghost start = *self;
        let mut left = match self.parse_pipeline() {
            Ok(c) => c,
            Err(e) => {
                return Err(e);
            },
        };
        loop
            invariant
                start == *old(self),
                self.moved_from(start),
                self.pos > start.pos,
                grammar::job_expr(start.ts(), start.pos as int, start.input_len)
                    == grammar::job_rest(
                    start.ts(),
                    self.pos as int,
                    start.input_len,
                    left.model(),
                ),
            decreases self.tokens@.len() - self.pos,
        {
            let is_and = match self.peek() {
                Token::JobAnd => true,
                Token::JobOr => false,
                _ => {
                    return Ok(left);
                },
            };
            let first = match left {
                ChainNode::Leaf(job) => job,
                _ => {
                    return Err(joined_error(self.peek_span()));
                },
            };
            self.advance();
            let span = self.peek_span();
            let second = match self.parse_pipeline() {
                Ok(ChainNode::Leaf(job)) => job,
                Ok(_) => {
                    return Err(joined_error(span));
                },
                Err(e) => {
                    return Err(e);
                },
            };
            left =
            ChainNode::Leaf(
                if is_and {
                    JobExpr::And { left: Box::new(first), right: Box::new(second) }
                } else {
                    JobExpr::Or { left: Box::new(first), right: Box::new(second) }
                },
            );
        }
    }

    /// pipeline = atom (pipe_op atom)*, where a group is an atom alone.
    fn parse_pipeline(&mut self) -> (r: Result<ChainNode, ParseError>)
        requires
            old(self).wf(),
        ensures
            final(self).moved_from(*old(self)),
            r is Ok ==> final(self).pos > old(self).pos,
            agrees(
                r,
                |c: ChainNode| c.model(),
                final(self).pos as int,
                grammar::pipeline(old(self).ts(), old(self).pos as int, old(self).input_len),
            ),
        decreases old(self).tokens@.len() - old(self).pos, 0int,
    {
        let is_group = match self.peek() {
            Token::GroupOpen => true,
            _ => false,
        };
        if !is_group {
            return match self.parse_processes() {
                Ok(segments) => Ok(ChainNode::Leaf(JobExpr::Pipeline(Pipeline { segments }))),
                Err(e) => Err(e),
            };
        }
        let span = self.peek_span();
        self.advance();
        let inner = match self.parse_chain() {
            Ok(c) => c,
            Err(e) => {
                return Err(e);
            },
        };
        let is_closed = match self.peek() {
            Token::GroupClose => true,
            _ => false,
        };
        if !is_closed {
            return Err(
                ParseError::plain(
                    self.peek_span(),
                    "expected `)` to close the chain group".to_owned(),
                    ParseErrorKind::UnmatchedParen,
                ),
            );
        }
        self.advance();
        match self.peek() {
            Token::PipeStdout | Token::PipeAll | Token::PipeStderr => Err(group_error(span)),
            _ => Ok(inner),
        }
    }

    /// Processes connected by pipes.
    fn parse_processes(&mut self) -> (r: Result<Vec<PipeSegment>, ParseError>)
        requires
            old(self).wf(),
        ensures
            final(self).moved_from(*old(self)),
            r is Ok ==> final(self).pos > old(self).pos,
            agrees(
                r,
                |s: Vec<PipeSegment>| seg_models(s@),
                final(self).pos as int,
                grammar::processes(old(self).ts(), old(self).pos as int, old(self).input_len),
            ),
    {
        let ghost start = *self;
        let mut current_words = match self.parse_atom_words() {
            Ok(w) => w,
            Err(e) => {
                return Err(e);
            },
        };
        let mut segments: Vec<PipeSegment> = Vec::new();
        assert(seg_models(segments@) =~= Seq::<SegModel>::empty());
        loop
            invariant
                start == *old(self),
                self.moved_from(start),
                self.pos > start.pos,
                grammar::processes(start.ts(), start.pos as int, start.input_len)
                    == grammar::pipeline_rest(
                    start.ts(),
                    self.pos as int,
                    start.input_len,
                    seg_models(segments@),
                    text::texts(current_words@),
                ),
            decreases self.tokens@.len() - self.pos,
        {
            let pipe_op = match self.peek() {
                Token::PipeStdout => Some(PipeOp::Stdout),
                Token::PipeAll => Some(PipeOp::StdoutStderr),
                Token::PipeStderr => Some(PipeOp::StderrOnly),
                _ => None,
            };
            let seg = PipeSegment { command: current_words, pipe_to_next: pipe_op };
            proof {
                assert(seg_models(segments@.push(seg)) =~= seg_models(segments@).push(seg@));
            }
            segments.push(seg);
            if pipe_op.is_none() {
                return Ok(segments);
            }
            self.advance();
            current_words =
            match self.parse_atom_words() {
                Ok(w) => w,
                Err(e) => {
                    return Err(e);
                },
            };
        }
    }

    /// The words of one process.
    fn parse_atom_words(&mut self) -> (r: Result<Vec<String>, ParseError>)
        requires
            old(self).wf(),
        ensures
            final(self).moved_from(*old(self)),
            r is Ok ==> final(self).pos > old(self).pos,
            agrees(
                r,
                |w: Vec<String>| text::texts(w@),
                final(self).pos as int,
                grammar::process(old(self).ts(), old(self).pos as int, old(self).input_len),
            ),
    {
        let is_group = match self.peek() {
            Token::GroupOpen => true,
            _ => false,
        };
        if is_group {
            return Err(group_error(self.peek_span()));
        }
        let ghost start = *self;
        let mut words: Vec<String> = Vec::new();
        assert(text::texts(words@) =~= Seq::<Text>::empty());
        loop
            invariant
                start == *old(self),
                self.moved_from(start),
                self.pos == start.pos + words@.len(),
                !(grammar::peek(start.ts(), start.pos as int) is GroupOpen),
                grammar::atom_words(start.ts(), start.pos as int, Seq::empty())
                    == grammar::atom_words(start.ts(), self.pos as int, text::texts(words@)),
            decreases self.tokens@.len() - self.pos,
        {
            let word = match self.peek() {
                Token::Word(w) => w.clone(),
                Token::IdRef(k, n) => id_string(*k, *n),
                Token::Command(c) => text::concat2(":", c.as_str()),
                _ => {
                    assert(text::texts(words@).len() == words@.len());
                    if words.len() == 0 {
                        return Err(
                            ParseError::plain(
                                self.peek_span(),
                                "expected command".to_owned(),
                                ParseErrorKind::MissingArgument,
                            ),
                        );
                    }
                    return Ok(words);
                },
            };
            proof {
                assert(text::texts(words@.push(word)) =~= text::texts(words@).push(word@));
            }
            words.push(word);
            self.advance();
        }
    }
}

/// The error of a group in a pipeline.
fn group_error(span: Span) -> (r: ParseError)
    ensures
        r@ == grammar::group_error(span),
{
    ParseError::with2(
        span,
        "cannot nest a chain group `(...)` inside a pipeline. Use `|>` for process pipes, `->` / `|||` for job chains.".to_owned(),
        ParseErrorKind::UnexpectedToken,
        "use |> for piping between processes".to_owned(),
        "use -> for serial job chaining".to_owned(),
    )
}

/// The error of a group of several jobs beside `&&` or `||`.
fn joined_error(span: Span) -> (r: ParseError)
    ensures
        r@ == grammar::joined_error(span),
{
    ParseError::with(
        span,
        "cannot join a chain group `(...)` by `&&` or `||`. Use `->` / `|||` for job chains.".to_owned(),
        ParseErrorKind::UnexpectedToken,
        "use -> for serial job chaining".to_owned(),
    )
}

/// The number that `w` denotes, with an optional `+` in front.
fn parse_usize(w: &str) -> (r: Option<usize>)
    ensures
        match r {
            Some(n) => grammar::usize_of(w@) == Some(n as nat),
            None => grammar::usize_of(w@) is None,
        },
{
    let v = text::chars_of(w);
    let digits = if v.len() > 0 && v[0] == '+' {
        let d = text::sub_chars(&v, 1, v.len());
        assert(d@ =~= v@.drop_first());
        d
    } else {
        v
    };
    match text::parse_digits(&digits, usize::MAX as u64) {
        Some(n) => Some(n as usize),
        None => None,
    }
}

fn parse_script(chunks: Vec<ScriptChunk>, input: &str, input_len: usize) -> (r: Result<
    Ast,
    ParseError,
>)
    requires
        chunks@.len() > 0,
    ensures
        match r {
            Ok(ast) => grammar::script(chunk_models(chunks@), input_len, input@) == Ok::<
                AstModel,
                ErrModel,
            >(ast.model()),
            Err(e) => grammar::script(chunk_models(chunks@), input_len, input@) == Err::<
                AstModel,
                ErrModel,
            >(e@),
        },
{
    let span = Span::new(chunks[0].span.start, chunks[chunks.len() - 1].span.end);
    match parse_items(chunks, input, input_len) {
        Err(e) => Err(e),
        Ok(items) => Ok(Ast::Script { items, span }),
    }
}

/// The statements of all chunks.
fn parse_items(chunks: Vec<ScriptChunk>, input: &str, input_len: usize) -> (r: Result<
    Vec<ScriptItemAst>,
    ParseError,
>)
    ensures
        match r {
            Ok(v) => grammar::items(chunk_models(chunks@), input_len, input@) == Ok::<
                Seq<ItemModel>,
                ErrModel,
            >(item_models(v@)),
            Err(e) => grammar::items(chunk_models(chunks@), input_len, input@) == Err::<
                Seq<ItemModel>,
                ErrModel,
            >(e@),
        },
    decreases chunks@.len(),
{
    let mut chunks = chunks;
    let ghost all = chunk_models(chunks@);
    match chunks.pop() {
        None => {
            let none: Vec<ScriptItemAst> = Vec::new();
            Ok(none)
        },
        Some(last) => {
            assert(chunk_models(chunks@) =~= all.drop_last());
            assert(all.last() == last.model());
            match parse_items(chunks, input, input_len) {
                Err(e) => Err(e),
                Ok(done) => match parse_item(last, input, input_len) {
                    Err(e) => Err(e),
                    Ok(item) => {
                        let mut done = done;
                        let ghost before = done@;
                        done.push(item);
                        assert(done@.drop_last() =~= before);
                        Ok(done)
                    },
                },
            }
        },
    }
}

/// The statement of one chunk.
fn parse_item(chunk: ScriptChunk, input: &str, input_len: usize) -> (r: Result<
    ScriptItemAst,
    ParseError,
>)
    ensures
        match r {
            Ok(item) => grammar::item(chunk.model(), input_len, input@) == Ok::<
                ItemModel,
                ErrModel,
            >(item.model()),
            Err(e) => grammar::item(chunk.model(), input_len, input@) == Err::<
                ItemModel,
                ErrModel,
            >(e@),
        },
{
    let mut parser = Parser { tokens: chunk.tokens, pos: 0, input_len, input };
    match parser.parse_single_statement() {
        Err(e) => Err(e),
        Ok(ast) => Ok(
            ScriptItemAst { source: chunk.source, span: chunk.span, statement: Box::new(ast) },
        ),
    }
}

fn validate_id_kind(command: &str, allowed: CommandIdKind, actual: IdKind, span: Span) -> (r: Result<
    (),
    ParseError,
>)
    ensures
        match r {
            Ok(_) => grammar::id_accepted(allowed, actual),
            Err(e) => !grammar::id_accepted(allowed, actual) && e@ == grammar::id_kind_error(
                command@,
                allowed,
                actual,
                span,
            ),
        },
{
    let accepted = match actual {
        IdKind::Job => allowed.accepts_job(),
        IdKind::Cron => allowed.accepts_cron(),
    };
    if accepted {
        return Ok(());
    }
    let mut message = text::concat5(":", command, " expects ", allowed.display(), " ID, got ");
    message.append(actual.letter());
    Err(
        ParseError::with(
            span,
            message,
            ParseErrorKind::InvalidIdRef,
            text::concat4(":", command, " ", allowed.first_example()),
        ),
    )
}

fn id_missing(name: &str, allowed: CommandIdKind) -> (r: String)
    ensures
        r@ == grammar::id_missing_message(name@, allowed),
{
    text::concat5(":", name, " requires an ID (", allowed.display(), ")")
}

fn target_missing(
    span: Span,
    message: String,
    kind: ParseErrorKind,
    name: &str,
    allowed: CommandIdKind,
) -> (r: ParseError)
    ensures
        r@ == grammar::target_missing_error(span, message@, kind, name@, allowed),
{
    ParseError::with(
        span,
        message,
        kind,
        text::concat5(":", name, " ", allowed.first_example(), " your input"),
    )
}

fn unknown_command(name: &str, span: Span) -> (r: ParseError)
    ensures
        r@ == grammar::unknown_command_error(name@, span),
{
    ParseError {
        span,
        message: text::concat3("unknown command `:", name, "`"),
        kind: ParseErrorKind::UnknownCommand,
        suggestions: suggest_command(name),
    }
}

fn suggest_command(name: &str) -> (r: Vec<String>)
    ensures
        text::texts(r@) == grammar::with_colons(crate::command_spec::suggestions(name@)),
{
    let found = command_suggestions(name);
    let mut out: Vec<String> = Vec::new();
    let mut i: usize = 0;
    assert(text::texts(out@) =~= grammar::with_colons(text::texts(found@).take(0)));
    while i < found.len()
        invariant
            i <= found@.len(),
            text::texts(out@) == grammar::with_colons(text::texts(found@).take(i as int)),
        decreases found@.len() - i,
    {
        let s = text::concat2(":", found[i].as_str());
        proof {
            assert(text::texts(out@.push(s)) =~= text::texts(out@).push(s@));
            assert(grammar::with_colons(text::texts(found@).take(i + 1)) =~= grammar::with_colons(
                text::texts(found@).take(i as int),
            ).push(s@));
        }
        out.push(s);
        i = i + 1;
    }
    assert(text::texts(found@).take(i as int) =~= text::texts(found@));
    out
}

fn validate_mode_param_value(spec: &ModeParamSpec, value: &Value, span: Span) -> (r: Result<
    (),
    ParseError,
>)
    ensures
        match r {
            Ok(_) => grammar::value_fits(spec.value_kind, value@),
            Err(e) => !grammar::value_fits(spec.value_kind, value@) && e@
                == grammar::value_kind_error(spec@, span),
        },
{
    let valid = match (spec.value_kind, value) {
        (ModeParamValueKind::String, Value::Str(_)) => true,
        (ModeParamValueKind::Bool, Value::Bool(_)) => true,
        _ => false,
    };
    if valid {
        return Ok(());
    }
    Err(
        ParseError::with(
            span,
            text::concat7(
                "mode parameter `",
                spec.name,
                "` expects ",
                mode_param_value_kind_name(spec.value_kind),
                " (e.g. ",
                spec.value_hint,
                ")",
            ),
            ParseErrorKind::InvalidModeParam,
            text::concat3(spec.name, "=", spec.value_hint),
        ),
    )
}

fn mode_param_value_kind_name(kind: ModeParamValueKind) -> (r: &'static str)
    ensures
        r@ == grammar::value_kind_name(kind),
{
    match kind {
        ModeParamValueKind::String => "a string",
        ModeParamValueKind::Bool => "a boolean",
    }
}

/// The tokens of the input without whitespace.
fn tokenize_for_parser(input: &str) -> (r: Result<Vec<Spanned>, ParseError>)
    ensures
        match r {
            Ok(ts) => grammar::parser_tokens(input@) == Ok::<Seq<SpannedModel>, ErrModel>(
                models(ts@),
            ),
            Err(e) => grammar::parser_tokens(input@) == Err::<Seq<SpannedModel>, ErrModel>(e@),
        },
{
    match Tokenizer::tokenize(input) {
        Err(e) => Err(
            ParseError::plain(
                Span::new(e.pos, e.pos + 1),
                e.message,
                ParseErrorKind::UnexpectedToken,
            ),
        ),
        Ok(all_tokens) => {
            let mut out: Vec<Spanned> = Vec::new();
            let mut i: usize = 0;
            let ghost all = models(all_tokens@);
            proof {
                reveal(Seq::filter);
                assert(all.take(0) =~= Seq::<SpannedModel>::empty());
                assert(models(out@) =~= all.take(0).filter(|t: SpannedModel| !grammar::is_blank(t)));
            }
            while i < all_tokens.len()
                invariant
                    i <= all_tokens@.len(),
                    all == models(all_tokens@),
                    models(out@) == all.take(i as int).filter(
                        |t: SpannedModel| !grammar::is_blank(t),
                    ),
                decreases all_tokens@.len() - i,
            {
                proof {
                    reveal(Seq::filter);
                    assert(all.take(i + 1).drop_last() =~= all.take(i as int));
                    assert(all.take(i + 1).last() == all_tokens@[i as int]@);
                }
                let blank = match &all_tokens[i].token {
                    Token::Whitespace(_) => true,
                    _ => false,
                };
                if !blank {
                    let t = all_tokens[i].clone();
                    proof {
                        assert(models(out@.push(t)) =~= models(out@).push(t@));
                    }
                    out.push(t);
                }
                i = i + 1;
            }
            assert(all.take(i as int) =~= all);
            Ok(out)
        },
    }
}

/// A script file without its comments and its interpreter line.
fn normalize_file_script(input: &str) -> (r: String)
    ensures
        r@ == grammar::normalized(input@),
{
    let v = text::chars_of(input);
    let mut output: String = String::new();
    let mut i: usize = 0;
    assert(output@ + grammar::normalized_from(v@, 0) =~= grammar::normalized_from(v@, 0));
    while i < v.len()
        invariant
            i <= v@.len(),
            output@ + grammar::normalized_from(v@, i as int) == grammar::normalized_from(v@, 0),
        decreases v@.len() - i,
    {
        let e = text::find_char(&v, i, '\n');
        let mut line = text::sub_chars(&v, i, e);
        let ghost whole = line@;
        if line.len() > 0 && line[line.len() - 1] == '\r' {
            let ghost before = line@;
            line.pop();
            assert(line@ =~= before.drop_last());
        }
        assert(line@ == grammar::without_return(whole));
        let kept = if i == 0 && text::chars_at(&line, 0, "#!") {
            String::new()
        } else {
            strip_comment(&line)
        };
        let ghost before = output@;
        output.append(kept.as_str());
        if e < v.len() {
            output.push('\n');
            proof {
                let rest = grammar::normalized_from(v@, e + 1);
                assert(output@ + rest =~= before + (kept@.push('\n') + rest));
            }
            i = e + 1;
        } else {
            i = e;
            assert(grammar::normalized_from(v@, i as int) =~= Seq::<char>::empty());
            assert(output@ + Seq::<char>::empty() =~= output@);
        }
    }
    assert(output@ + grammar::normalized_from(v@, i as int) =~= output@);
    output
}

/// A line without its comment and the blanks in front of it.
pub fn strip_file_script_comment(line: &str) -> (r: String)
    ensures
        r@ == grammar::without_comment(line@),
{
    strip_comment(&text::chars_of(line))
}

fn strip_comment(line: &Vec<char>) -> (r: String)
    ensures
        r@ == grammar::without_comment(line@),
{
    let mut in_single: bool = false;
    let mut in_double: bool = false;
    let mut escaped: bool = false;
    let mut comment_boundary: bool = true;
    let mut i: usize = 0;
    while i < line.len()
        invariant
            i <= line@.len(),
            grammar::comment_start(line@, 0, false, false, false, true) == grammar::comment_start(
                line@,
                i as int,
                in_single,
                in_double,
                escaped,
                comment_boundary,
            ),
        decreases line@.len() - i,
    {
        let ch = line[i];
        if in_double {
            if escaped {
                escaped = false;
            } else if ch == '\\' {
                escaped = true;
            } else if ch == '"' {
                in_double = false;
            }
        } else if in_single {
            if ch == '\'' {
                in_single = false;
            }
        } else if ch == '#' && comment_boundary {
            let head = text::sub_chars(line, 0, i);
            assert(head@ =~= line@.take(i as int));
            return text::all_string(&text::chars_trim_end(&head));
        } else if ch == '"' {
            in_double = true;
            comment_boundary = false;
        } else if ch == '\'' {
            in_single = true;
            comment_boundary = false;
        } else {
            comment_boundary = ch == ' ' || ch == '\t';
        }
        i = i + 1;
    }
    text::all_string(line)
}

/// The statements of the input.
fn split_top_level_statements(tokens: &Vec<Spanned>, input: &str) -> (r: Vec<ScriptChunk>)
    ensures
        chunk_models(r@) == grammar::statements(models(tokens@), input@),
{
    let input_chars = text::chars_of(input);
    let ghost ts = models(tokens@);
    let mut chunks: Vec<ScriptChunk> = Vec::new();
    let mut current: Vec<Spanned> = Vec::new();
    let mut depth: usize = 0;
    let mut idx: usize = 0;
    assert(chunk_models(chunks@) =~= Seq::<ChunkModel>::empty());
    assert(models(current@) =~= Seq::<SpannedModel>::empty());
    while idx < tokens.len()
        invariant_except_break
            grammar::statements(ts, input@) == grammar::split_from(
                ts,
                input@,
                idx as int,
                chunk_models(chunks@),
                models(current@),
                depth as nat,
            ),
        invariant
            idx <= tokens@.len(),
            depth <= idx,
            ts == models(tokens@),
            input_chars@ == input@,
        ensures
            grammar::statements(ts, input@) == grammar::push_chunk(
                chunk_models(chunks@),
                models(current@),
                input@,
            ),
        decreases tokens@.len() - idx,
    {
        let ghost t = tokens@[idx as int];
        assert(ts[idx as int] == t@);
        assert(models(current@.push(t)) =~= models(current@).push(t@));
        match &tokens[idx].token {
            Token::Eof => {
                break;
            },
            Token::ModeParenOpen | Token::GroupOpen => {
                depth = depth + 1;
                current.push(tokens[idx].clone());
            },
            Token::ModeParenClose | Token::GroupClose => {
                depth = if depth > 0 {
                    depth - 1
                } else {
                    0
                };
                current.push(tokens[idx].clone());
            },
            Token::Newline => {
                if should_split_on_newline(tokens, idx, depth, &current) {
                    push_script_chunk(&mut chunks, current, &input_chars);
                    current = Vec::new();
                    assert(models(current@) =~= Seq::<SpannedModel>::empty());
                }
            },
            _ => {
                current.push(tokens[idx].clone());
            },
        }
        idx = idx + 1;
    }
    push_script_chunk(&mut chunks, current, &input_chars);
    chunks
}

fn should_split_on_newline(
    tokens: &Vec<Spanned>,
    newline_index: usize,
    depth: usize,
    current: &Vec<Spanned>,
) -> (r: bool)
    requires
        newline_index < tokens.len(),
    ensures
        r == grammar::splits_at(
            models(tokens@),
            newline_index as int,
            depth as nat,
            models(current@),
        ),
{
    assert(models(current@).len() == current@.len());
    if current.len() == 0 {
        return true;
    }
    if depth > 0 {
        return false;
    }
    if token_requires_continuation(&current[current.len() - 1].token) {
        return false;
    }
    let ghost ts = models(tokens@);
    let mut i: usize = newline_index + 1;
    while i < tokens.len()
        invariant
            i <= tokens@.len(),
            ts == models(tokens@),
            depth == 0,
            models(current@).len() > 0,
            !grammar::is_operator(models(current@).last().token),
            grammar::next_content(ts, newline_index + 1) == grammar::next_content(ts, i as int),
        decreases tokens@.len() - i,
    {
        match &tokens[i].token {
            Token::Newline | Token::Eof => {},
            other => {
                assert(ts[i as int].token == other@);
                return !token_requires_continuation(other);
            },
        }
        i = i + 1;
    }
    true
}

fn token_requires_continuation(token: &Token) -> (r: bool)
    ensures
        r == grammar::is_operator(token@),
{
    match token {
        Token::SerialThen | Token::SerialAlways | Token::ParallelAll | Token::ParallelRace => true,
        Token::PipeStdout | Token::PipeAll | Token::PipeStderr => true,
        Token::JobAnd | Token::JobOr => true,
        _ => false,
    }
}

fn push_script_chunk(chunks: &mut Vec<ScriptChunk>, current: Vec<Spanned>, input: &Vec<char>)
    ensures
        chunk_models(final(chunks)@) == grammar::push_chunk(
            chunk_models(old(chunks)@),
            models(current@),
            input@,
        ),
{
    assert(models(current@).len() == current@.len());
    if current.len() == 0 {
        return;
    }
    let span = Span::new(current[0].span.start, current[current.len() - 1].span.end);
    let slice = text::chars_byte_slice(input, span.start, span.end);
    let source = text::str_trim(slice.as_str());
    if source.len() == 0 {
        return;
    }
    let chunk = ScriptChunk { tokens: current, source: text::all_string(&source), span };
    proof {
        assert(chunk_models(chunks@.push(chunk)) =~= chunk_models(chunks@).push(chunk.model()));
    }
    chunks.push(chunk);
}

} // verus!
