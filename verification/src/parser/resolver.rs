//! Resolver: tree → command ready for execution.
//!
//! 1. Mode injection: bare input becomes the default command of the mode
//! 2. Argument checks
//! 3. Conversion of trees, parameters and schedules

use vstd::prelude::*;
use vstd::string::*;

use super::ast::{
    item_models, param_models, seg_models, Argument, ArgModel, Ast, AstModel, ChainNode,
    CronScheduleAst, JobExpr, PipeSegment, Pipeline, ScheduleModel, ScriptItemAst,
};
use super::error::{ErrModel, ParseError, ParseErrorKind};
use super::grammar;
use super::parse::Parser;
use super::resolved;
use super::resolved::{
    ResolvedCommand, ResolvedItemModel, ResolvedModel, ResolvedScriptItem, ScriptSource,
};
use super::token::{id_string, Span, Value, ValueModel};
use crate::command::ModeParams;
use crate::command_spec::{find_spec, registry, SpecModel};
use crate::cron::{
    lemma_schedule_view, parse_day_filter, parse_time_of_day, CronPreset, CronSchedule,
    CrontabSchedule,
};
use crate::duration::{format_duration, parse_duration_str, Duration};
use crate::mode::Mode;
use crate::pipeline;
use crate::pipeline::{ChainModel, JobPlan, ParallelOp, PipeOp, SegModel, SerialOp};
use crate::text;
use crate::text::Text;

verus! {

/// Resolves trees into commands ready for execution.
pub struct Resolver;

/// Whether an executable result is what the resolution says.
pub open spec fn resolves(r: Result<ResolvedCommand, ParseError>, spec: Result<ResolvedModel, ErrModel>) -> bool {
    match r {
        Ok(c) => spec == Ok::<ResolvedModel, ErrModel>(c.model()),
        Err(e) => spec == Err::<ResolvedModel, ErrModel>(e@),
    }
}

impl Resolver {
    /// What a tree of the parser means in a mode.
    pub fn resolve(ast: Ast, mode: Mode) -> (r: Result<ResolvedCommand, ParseError>)
        requires
            resolved::well_shaped(ast.model()),
        ensures
            resolves(r, resolved::resolved(ast.model(), mode)),
        decreases ast,
    {
        match ast {
            Ast::Script { items, span } => match Self::resolve_items(items, mode) {
                Ok(items) => Ok(
                    ResolvedCommand::Script { mode, source: ScriptSource::Inline, items },
                ),
                Err(e) => Err(e),
            },
            Ast::BareInput { argument, span } => Self::resolve_bare(argument, mode, span),
            Ast::Command { name, mode_params, argument, span } => {
                proof {
                    lemma_shape_of_command(name@, param_models(mode_params@), argument@, span);
                }
                Self::resolve_command(name.as_str(), mode_params, argument, span)
            },
        }
    }

    fn resolve_items(items: Vec<ScriptItemAst>, mode: Mode) -> (r: Result<
        Vec<ResolvedScriptItem>,
        ParseError,
    >)
        requires
            resolved::items_well_shaped(item_models(items@)),
        ensures
            match r {
                Ok(v) => resolved::items_resolved(item_models(items@), mode) == Ok::<
                    Seq<ResolvedItemModel>,
                    ErrModel,
                >(resolved::resolved_items(v@)),
                Err(e) => resolved::items_resolved(item_models(items@), mode) == Err::<
                    Seq<ResolvedItemModel>,
                    ErrModel,
                >(e@),
            },
        decreases items@,
    {
        let ghost all = items@;
        let mut items = items;
        match items.pop() {
            None => {
                let none: Vec<ResolvedScriptItem> = Vec::new();
                Ok(none)
            },
            Some(last) => {
                proof {
                    assert(items@ =~= all.drop_last());
                    assert(item_models(all).drop_last() =~= item_models(all.drop_last()));
                    assert(item_models(all).last() == last.model());
                    assert(decreases_to!(all => all.last()));
                    assert(decreases_to!(all => all.drop_last()));
                }
                match Self::resolve_items(items, mode) {
                    Err(e) => Err(e),
                    Ok(done) => match Self::resolve(*last.statement, mode) {
                        Err(e) => Err(e),
                        Ok(command) => {
                            let mut done = done;
                            let ghost before = done@;
                            let item = ResolvedScriptItem {
                                source: last.source,
                                command: Box::new(command),
                            };
                            done.push(item);
                            proof {
                                assert(done@.drop_last() =~= before);
                                assert(resolved::resolved_items(done@)
                                    == resolved::resolved_items(before).push(item.model()));
                                assert(item.model() == (ResolvedItemModel {
                                    source: last.source@,
                                    command: Box::new(command.model()),
                                }));
                            }
                            Ok(done)
                        },
                    },
                }
            },
        }
    }

    fn resolve_bare(argument: Argument, mode: Mode, span: Span) -> (r: Result<
        ResolvedCommand,
        ParseError,
    >)
        ensures
            resolves(r, resolved::bare(argument@, mode, span)),
    {
        if is_mode_help_request(&argument) {
            return Ok(ResolvedCommand::Help { topic: Some(mode_help_topic(mode).to_owned()) });
        }
        match mode {
            Mode::Job => match argument {
                Argument::Chain(chain) => Ok(
                    ResolvedCommand::Run { chain: convert_chain(chain), params: ModeParams::new() },
                ),
                Argument::Empty => Err(
                    ParseError::plain(
                        span,
                        "empty input".to_owned(),
                        ParseErrorKind::MissingArgument,
                    ),
                ),
                _ => Err(
                    ParseError::plain(
                        span,
                        "JOB mode expects a command to run".to_owned(),
                        ParseErrorKind::UnexpectedToken,
                    ),
                ),
            },
            Mode::Cron => resolve_bare_cron(argument, span),
        }
    }

    fn resolve_command(
        name: &str,
        mode_params: Vec<(String, Value)>,
        argument: Argument,
        span: Span,
    ) -> (r: Result<ResolvedCommand, ParseError>)
        requires
            name@ == "run"@ || name@ == "cron"@ ==> argument is Chain,
        ensures
            resolves(
                r,
                resolved::named(
                    name@,
                    crate::command::params_map(param_models(mode_params@)),
                    argument@,
                    span,
                ),
            ),
    {
        let params = ModeParams::from_pairs(mode_params);
        if text::str_eq(name, "run") {
            return match argument {
                Argument::Chain(chain) => Ok(
                    ResolvedCommand::Run { chain: convert_chain(chain), params },
                ),
                _ => vstd::pervasive::unreached(),
            };
        }
        if text::str_eq(name, "cron") {
            return match argument {
                Argument::Chain(chain) => resolve_cron_chain(chain, params, span),
                _ => vstd::pervasive::unreached(),
            };
        }
        if text::str_eq(name, "kill") {
            return match extract_id(argument, span, name) {
                Ok(id) => Ok(ResolvedCommand::Kill { id }),
                Err(e) => Err(e),
            };
        }
        if text::str_eq(name, "retry") {
            return match extract_id(argument, span, name) {
                Ok(id) => Ok(ResolvedCommand::Retry { id }),
                Err(e) => Err(e),
            };
        }
        if text::str_eq(name, "out") {
            return match extract_id(argument, span, name) {
                Ok(id) => Ok(ResolvedCommand::Out { id, tail_bytes: None }),
                Err(e) => Err(e),
            };
        }
        if text::str_eq(name, "tail") {
            let (id, bytes) = extract_tail_ref(argument);
            let limit: usize = match bytes {
                Some(b) => b,
                None => 8192,
            };
            return Ok(ResolvedCommand::Out { id, tail_bytes: Some(limit) });
        }
        if text::str_eq(name, "err") {
            return match extract_id(argument, span, name) {
                Ok(id) => Ok(ResolvedCommand::ErrOutput { id }),
                Err(e) => Err(e),
            };
        }
        if text::str_eq(name, "fg") {
            return match extract_id(argument, span, name) {
                Ok(id) => Ok(ResolvedCommand::Fg { id }),
                Err(e) => Err(e),
            };
        }
        if text::str_eq(name, "wait") {
            return match extract_id(argument, span, name) {
                Ok(id) => Ok(ResolvedCommand::Wait { id }),
                Err(e) => Err(e),
            };
        }
        if text::str_eq(name, "send") {
            return match extract_target_and_text(argument, span, name) {
                Ok((id, data)) => Ok(ResolvedCommand::Send { id, data }),
                Err(e) => Err(e),
            };
        }
        if text::str_eq(name, "cancel") {
            return match extract_id(argument, span, name) {
                Ok(id) => Ok(ResolvedCommand::Cancel { id }),
                Err(e) => Err(e),
            };
        }
        if text::str_eq(name, "pause") {
            return match extract_id(argument, span, name) {
                Ok(id) => Ok(ResolvedCommand::Pause { id }),
                Err(e) => Err(e),
            };
        }
        if text::str_eq(name, "resume") {
            return match extract_id(argument, span, name) {
                Ok(id) => Ok(ResolvedCommand::Resume { id }),
                Err(e) => Err(e),
            };
        }
        if text::str_eq(name, "log") {
            let id = match argument {
                Argument::IdRef(k, n) => Some(id_string(k, n)),
                _ => None,
            };
            return Ok(ResolvedCommand::Log { id });
        }
        Ok(
            if text::str_eq(name, "jobs") {
                ResolvedCommand::Jobs
            } else if text::str_eq(name, "crons") {
                ResolvedCommand::Crons
            } else if text::str_eq(name, "scopes") {
                ResolvedCommand::Scopes
            } else if text::str_eq(name, "env") {
                ResolvedCommand::Env { subcommand: extract_optional_text(argument) }
            } else if text::str_eq(name, "cd") {
                ResolvedCommand::Cd { path: extract_text(argument) }
            } else if text::str_eq(name, "scope") {
                ResolvedCommand::Scope { subcommand: extract_optional_text(argument) }
            } else if text::str_eq(name, "help") {
                ResolvedCommand::Help { topic: extract_optional_text(argument) }
            } else if text::str_eq(name, "config") {
                ResolvedCommand::Config { subcommand: extract_optional_text(argument) }
            } else if text::str_eq(name, "clear") {
                ResolvedCommand::Clear
            } else if text::str_eq(name, "quit") || text::str_eq(name, "exit") {
                ResolvedCommand::Quit
            } else {
                ResolvedCommand::Wrap { subcommand: extract_optional_text(argument) }
            },
        )
    }
}

// ── Conversion ──

fn convert_chain(node: ChainNode) -> (r: pipeline::ChainNode)
    ensures
        r.model() == node.model(),
    decreases node,
{
    match node {
        ChainNode::Leaf(expr) => pipeline::ChainNode::Leaf(convert_job_expr(expr)),
        ChainNode::Serial { op, left, right } => pipeline::ChainNode::Serial {
            op,
            left: Box::new(convert_chain(*left)),
            right: Box::new(convert_chain(*right)),
        },
        ChainNode::Parallel { op, left, right } => pipeline::ChainNode::Parallel {
            op,
            left: Box::new(convert_chain(*left)),
            right: Box::new(convert_chain(*right)),
        },
    }
}

fn convert_job_expr(expr: JobExpr) -> (r: JobPlan)
    ensures
        r.model() == expr.model(),
    decreases expr,
{
    match expr {
        JobExpr::Pipeline(p) => JobPlan::Pipeline(convert_pipeline(p)),
        JobExpr::And { left, right } => JobPlan::And {
            left: Box::new(convert_job_expr(*left)),
            right: Box::new(convert_job_expr(*right)),
        },
        JobExpr::Or { left, right } => JobPlan::Or {
            left: Box::new(convert_job_expr(*left)),
            right: Box::new(convert_job_expr(*right)),
        },
    }
}

fn convert_pipeline(p: Pipeline) -> (r: pipeline::Pipeline)
    ensures
        r@ == seg_models(p.segments@),
{
    let segments = convert_segments(p.segments);
    pipeline::Pipeline { segments }
}

fn convert_segments(segments: Vec<PipeSegment>) -> (r: Vec<pipeline::PipeSegment>)
    ensures
        r@.map_values(|s: pipeline::PipeSegment| s@) == seg_models(segments@),
    decreases segments@.len(),
{
    let ghost all = segments@;
    let mut segments = segments;
    match segments.pop() {
        None => {
            let none: Vec<pipeline::PipeSegment> = Vec::new();
            assert(none@.map_values(|s: pipeline::PipeSegment| s@) =~= seg_models(all));
            none
        },
        Some(last) => {
            assert(segments@ =~= all.drop_last());
            let mut out = convert_segments(segments);
            let ghost before = out@;
            out.push(
                pipeline::PipeSegment { command: last.command, pipe_to_next: last.pipe_to_next },
            );
            proof {
                assert(seg_models(all) =~= seg_models(all.drop_last()).push(last@));
                assert(out@.map_values(|s: pipeline::PipeSegment| s@) =~= before.map_values(
                    |s: pipeline::PipeSegment| s@,
                ).push(last@));
            }
            out
        },
    }
}

fn extract_id(arg: Argument, span: Span, command: &str) -> (r: Result<String, ParseError>)
    ensures
        match r {
            Ok(id) => resolved::id_of(arg@, span, command@) == Ok::<Text, ErrModel>(id@),
            Err(e) => resolved::id_of(arg@, span, command@) == Err::<Text, ErrModel>(e@),
        },
{
    match arg {
        Argument::IdRef(k, n) => Ok(id_string(k, n)),
        _ => Err(
            ParseError::with(
                span,
                text::concat3("`:", command, "` requires an ID (e.g. J1, C1)"),
                ParseErrorKind::InvalidIdRef,
                text::concat3(":", command, " J1"),
            ),
        ),
    }
}

fn extract_tail_ref(arg: Argument) -> (r: (String, Option<usize>))
    ensures
        (r.0@, r.1) == resolved::tail_of(arg@),
{
    match arg {
        Argument::TailRef(k, n, bytes) => (id_string(k, n), bytes),
        Argument::IdRef(k, n) => (id_string(k, n), None),
        _ => (String::new(), None),
    }
}

fn extract_text(arg: Argument) -> (r: String)
    ensures
        r@ == resolved::text_of(arg@),
{
    match arg {
        Argument::Text(t) => t,
        Argument::Chain(chain) => chain_to_text(&chain),
        _ => String::new(),
    }
}

fn extract_target_and_text(arg: Argument, span: Span, command: &str) -> (r: Result<
    (String, String),
    ParseError,
>)
    ensures
        match r {
            Ok(p) => resolved::target_and_text(arg@, span, command@) == Ok::<
                (Text, Text),
                ErrModel,
            >((p.0@, p.1@)),
            Err(e) => resolved::target_and_text(arg@, span, command@) == Err::<
                (Text, Text),
                ErrModel,
            >(e@),
        },
{
    let trimmed = match arg {
        Argument::Text(text) => text::str_trim(text.as_str()),
        _ => Vec::new(),
    };
    if trimmed.len() == 0 {
        return Err(
            ParseError::with(
                span,
                text::concat3("`:", command, "` requires a target and input"),
                ParseErrorKind::MissingArgument,
                text::concat3(":", command, " J1 your input"),
            ),
        );
    }
    let e = text::word_end(&trimmed, 0);
    let rest = text::sub_chars(&trimmed, e, trimmed.len());
    proof {
        assert(trimmed@.skip(0) =~= trimmed@);
        assert(rest@ =~= trimmed@.skip(e as int));
    }
    let data = text::chars_trim(&rest);
    if data.len() == 0 {
        return Err(
            ParseError::with(
                span,
                text::concat3("`:", command, "` requires input after the target"),
                ParseErrorKind::MissingArgument,
                text::concat3(":", command, " J1 your input"),
            ),
        );
    }
    let id = text::string_of(&trimmed, 0, e);
    assert(id@ =~= trimmed@.take(e as int));
    Ok((id, text::all_string(&data)))
}

fn extract_optional_text(arg: Argument) -> (r: Option<String>)
    ensures
        resolved::opt_text(r) == resolved::optional_text_of(arg@),
{
    match arg {
        Argument::Text(t) => if t.as_str().is_empty() {
            None
        } else {
            Some(t)
        },
        _ => None,
    }
}

/// The schedule that was meant. `None` if a time, a day filter or a crontab
/// field is invalid, or a span of time is zero.
fn convert_cron_schedule(ast: &CronScheduleAst) -> (r: Option<CronSchedule>)
    ensures
        match r {
            Some(s) => resolved::schedule_meant(ast@) == Some(s@),
            None => resolved::schedule_meant(ast@) is None,
        },
{
    broadcast use lemma_schedule_view;

    match ast {
        CronScheduleAst::Every(d) => if d.is_zero() {
            None
        } else {
            Some(CronSchedule::Interval(*d))
        },
        CronScheduleAst::In(d) => if d.is_zero() {
            None
        } else {
            Some(CronSchedule::Delay(*d))
        },
        CronScheduleAst::At { time, days } => {
            let time_secs = match parse_time_of_day(time.as_str()) {
                Some(t) => t,
                None => {
                    return None;
                },
            };
            match days {
                Some(names) => match parse_day_filter(names.as_str()) {
                    Some(f) => Some(CronSchedule::TimeOfDay { time_secs, days: Some(f) }),
                    None => None,
                },
                None => Some(CronSchedule::TimeOfDay { time_secs, days: None }),
            }
        },
        CronScheduleAst::Crontab(expr) => match CrontabSchedule::parse(expr.as_str()) {
            Some(c) => Some(CronSchedule::Crontab(c)),
            None => None,
        },
        CronScheduleAst::Preset(name) => {
            if text::str_eq(name.as_str(), "daily") {
                Some(CronSchedule::Preset(CronPreset::Daily))
            } else if text::str_eq(name.as_str(), "hourly") {
                Some(CronSchedule::Preset(CronPreset::Hourly))
            } else if text::str_eq(name.as_str(), "weekly") {
                Some(CronSchedule::Preset(CronPreset::Weekly))
            } else if text::str_eq(name.as_str(), "monthly") {
                Some(CronSchedule::Preset(CronPreset::Monthly))
            } else {
                None
            }
        },
    }
}

/// A schedule as it is shown in messages.
fn cron_schedule_display(ast: &CronScheduleAst) -> (r: String)
    ensures
        r@ == resolved::schedule_text(ast@),
{
    match ast {
        CronScheduleAst::Every(d) => text::concat2("every ", format_duration(*d).as_str()),
        CronScheduleAst::At { time, days } => match days {
            Some(d) => text::concat4("at ", time.as_str(), " on ", d.as_str()),
            None => text::concat2("at ", time.as_str()),
        },
        CronScheduleAst::In(d) => text::concat2("in ", format_duration(*d).as_str()),
        CronScheduleAst::Crontab(expr) => text::concat2("cron ", expr.as_str()),
        CronScheduleAst::Preset(name) => name.clone(),
    }
}

/// A chain as it would be written.
fn chain_to_text(node: &ChainNode) -> (r: String)
    ensures
        r@ == resolved::chain_text(node.model()),
    decreases node,
{
    match node {
        ChainNode::Leaf(expr) => job_expr_to_text(expr),
        ChainNode::Serial { left, op, right } => {
            let op_str = match op {
                SerialOp::Then => " -> ",
                SerialOp::Always => " ~> ",
            };
            text::concat3(chain_to_text(left).as_str(), op_str, chain_to_text(right).as_str())
        },
        ChainNode::Parallel { left, op, right } => {
            let op_str = match op {
                ParallelOp::All => " ||| ",
                ParallelOp::Race => " |?| ",
            };
            text::concat3(chain_to_text(left).as_str(), op_str, chain_to_text(right).as_str())
        },
    }
}

fn job_expr_to_text(expr: &JobExpr) -> (r: String)
    ensures
        r@ == resolved::job_text(expr.model()),
    decreases expr,
{
    match expr {
        JobExpr::Pipeline(p) => pipeline_to_text(p),
        JobExpr::And { left, right } => text::concat3(
            job_expr_to_text(left).as_str(),
            " && ",
            job_expr_to_text(right).as_str(),
        ),
        JobExpr::Or { left, right } => text::concat3(
            job_expr_to_text(left).as_str(),
            " || ",
            job_expr_to_text(right).as_str(),
        ),
    }
}

fn pipeline_to_text(p: &Pipeline) -> (r: String)
    ensures
        r@ == resolved::pipeline_text(seg_models(p.segments@)),
{
    let ghost shown = seg_models(p.segments@).map_values(|s: SegModel| resolved::seg_text(s));
    let mut parts: Vec<String> = Vec::new();
    let mut i: usize = 0;
    assert(text::texts(parts@) =~= shown.take(0));
    while i < p.segments.len()
        invariant
            i <= p.segments@.len(),
            shown == seg_models(p.segments@).map_values(|s: SegModel| resolved::seg_text(s)),
            text::texts(parts@) == shown.take(i as int),
        decreases p.segments@.len() - i,
    {
        let cmd = text::join_strings(&p.segments[i].command, " ");
        let part = match p.segments[i].pipe_to_next {
            Some(PipeOp::Stdout) => text::concat2(cmd.as_str(), " |>"),
            Some(PipeOp::StdoutStderr) => text::concat2(cmd.as_str(), " |&>"),
            Some(PipeOp::StderrOnly) => text::concat2(cmd.as_str(), " |!>"),
            None => cmd,
        };
        proof {
            assert(shown[i as int] == part@);
            assert(text::texts(parts@.push(part)) =~= text::texts(parts@).push(part@));
            assert(shown.take(i + 1) =~= shown.take(i as int).push(part@));
        }
        parts.push(part);
        i = i + 1;
    }
    assert(shown.take(i as int) =~= shown);
    text::join_strings(&parts, " ")
}

// ── Cron input ──

fn resolve_bare_cron(argument: Argument, span: Span) -> (r: Result<ResolvedCommand, ParseError>)
    requires
        !resolved::asks_for_help(argument@),
    ensures
        resolves(r, resolved::bare(argument@, Mode::Cron, span)),
{
    match argument {
        Argument::Chain(chain) => resolve_cron_chain(chain, ModeParams::new(), span),
        Argument::Empty => Err(schedule_missing(span)),
        _ => Err(
            ParseError::plain(
                span,
                "CRON mode expects a schedule expression and command body".to_owned(),
                ParseErrorKind::UnexpectedToken,
            ),
        ),
    }
}

fn schedule_missing(span: Span) -> (r: ParseError)
    ensures
        r@ == resolved::schedule_missing(span),
{
    ParseError::with(
        span,
        "`:cron` requires a schedule expression".to_owned(),
        ParseErrorKind::MissingArgument,
        ":cron every 5m cargo test".to_owned(),
    )
}

/// The cron that a chain describes.
fn resolve_cron_chain(chain: ChainNode, params: ModeParams, span: Span) -> (r: Result<
    ResolvedCommand,
    ParseError,
>)
    ensures
        resolves(r, resolved::cron_of(chain.model(), params@, span)),
{
    match split_bare_cron_chain(chain, span) {
        Err(e) => Err(e),
        Ok((schedule_ast, body)) => match convert_cron_schedule(&schedule_ast) {
            Some(schedule) => Ok(
                ResolvedCommand::Cron { schedule, chain: convert_chain(body), params },
            ),
            None => Err(
                ParseError {
                    span,
                    message: text::concat2(
                        "cannot parse cron schedule from: ",
                        cron_schedule_display(&schedule_ast).as_str(),
                    ),
                    kind: ParseErrorKind::InvalidCronSchedule,
                    suggestions: text::texts3(
                        "every 5m".to_owned(),
                        "at 09:00".to_owned(),
                        "daily".to_owned(),
                    ),
                },
            ),
        },
    }
}

fn split_bare_cron_chain(chain: ChainNode, span: Span) -> (r: Result<
    (CronScheduleAst, ChainNode),
    ParseError,
>)
    ensures
        match r {
            Ok(p) => resolved::split_cron(chain.model(), span) == Ok::<
                (ScheduleModel, ChainModel),
                ErrModel,
            >((p.0@, p.1.model())),
            Err(e) => resolved::split_cron(chain.model(), span) == Err::<
                (ScheduleModel, ChainModel),
                ErrModel,
            >(e@),
        },
{
    let words = match leftmost_command_words(&chain) {
        Some(words) => words,
        None => {
            return Err(schedule_missing(span));
        },
    };
    assert(text::texts(words@).len() == words@.len());
    match parse_bare_cron_schedule(words, span) {
        Err(e) => Err(e),
        Ok((schedule, consumed)) => {
            if words.len() == consumed {
                return Err(
                    ParseError::plain(
                        span,
                        "`:cron` requires a command body after schedule".to_owned(),
                        ParseErrorKind::MissingArgument,
                    ),
                );
            }
            Ok((schedule, drop_leftmost_words(chain, consumed)))
        },
    }
}

fn leftmost_command_words(node: &ChainNode) -> (r: Option<&Vec<String>>)
    ensures
        match r {
            Some(w) => resolved::first_words(node.model()) == Some(text::texts(w@)),
            None => resolved::first_words(node.model()) is None,
        },
    decreases node,
{
    match node {
        ChainNode::Leaf(expr) => leftmost_job_expr_words(expr),
        ChainNode::Serial { left, op, right } => leftmost_command_words(left),
        ChainNode::Parallel { left, op, right } => leftmost_command_words(left),
    }
}

fn leftmost_job_expr_words(expr: &JobExpr) -> (r: Option<&Vec<String>>)
    ensures
        match r {
            Some(w) => resolved::first_job_words(expr.model()) == Some(text::texts(w@)),
            None => resolved::first_job_words(expr.model()) is None,
        },
    decreases expr,
{
    match expr {
        JobExpr::Pipeline(p) => {
            assert(seg_models(p.segments@).len() == p.segments@.len());
            if p.segments.len() == 0 {
                None
            } else {
                assert(seg_models(p.segments@)[0] == p.segments@[0]@);
                Some(&p.segments[0].command)
            }
        },
        JobExpr::And { left, right } => leftmost_job_expr_words(left),
        JobExpr::Or { left, right } => leftmost_job_expr_words(left),
    }
}

fn drop_leftmost_words(node: ChainNode, n: usize) -> (r: ChainNode)
    requires
        resolved::first_words(node.model()) matches Some(w) && n <= w.len(),
    ensures
        r.model() == resolved::chain_without(node.model(), n as int),
    decreases node,
{
    match node {
        ChainNode::Leaf(expr) => ChainNode::Leaf(drop_job_words(expr, n)),
        ChainNode::Serial { op, left, right } => ChainNode::Serial {
            op,
            left: Box::new(drop_leftmost_words(*left, n)),
            right,
        },
        ChainNode::Parallel { op, left, right } => ChainNode::Parallel {
            op,
            left: Box::new(drop_leftmost_words(*left, n)),
            right,
        },
    }
}

fn drop_job_words(expr: JobExpr, n: usize) -> (r: JobExpr)
    requires
        resolved::first_job_words(expr.model()) matches Some(w) && n <= w.len(),
    ensures
        r.model() == resolved::job_without(expr.model(), n as int),
    decreases expr,
{
    match expr {
        JobExpr::Pipeline(p) => {
            let mut segments = p.segments;
            let ghost before = segments@;
            assert(seg_models(before).len() == before.len());
            let first = segments.remove(0);
            assert(seg_models(before)[0] == first@);
            let mut command = first.command;
            let tail = command.split_off(n);
            let seg = PipeSegment { command: tail, pipe_to_next: first.pipe_to_next };
            segments.insert(0, seg);
            proof {
                assert(text::texts(tail@) =~= text::texts(first.command@).skip(n as int));
                assert(segments@ =~= before.update(0, seg));
                assert(seg_models(segments@) =~= seg_models(before).update(0, seg@));
            }
            JobExpr::Pipeline(Pipeline { segments })
        },
        JobExpr::And { left, right } => JobExpr::And {
            left: Box::new(drop_job_words(*left, n)),
            right,
        },
        JobExpr::Or { left, right } => JobExpr::Or {
            left: Box::new(drop_job_words(*left, n)),
            right,
        },
    }
}

fn schedule_error(span: Span, message: &str, hint: &str) -> (r: ParseError)
    ensures
        r@ == resolved::schedule_error(span, message@, hint@),
{
    ParseError::with(
        span,
        message.to_owned(),
        ParseErrorKind::InvalidCronSchedule,
        hint.to_owned(),
    )
}

/// Whether word `i` exists and is `s`.
fn word_is(words: &Vec<String>, i: usize, s: &str) -> (r: bool)
    ensures
        r == (i < text::texts(words@).len() && text::texts(words@)[i as int] == s@),
{
    assert(text::texts(words@).len() == words@.len());
    i < words.len() && text::str_eq(words[i].as_str(), s)
}

/// Whether an executable schedule is what the words say.
pub open spec fn schedules(
    r: Result<(CronScheduleAst, usize), ParseError>,
    spec: Result<(ScheduleModel, int), ErrModel>,
) -> bool {
    match r {
        Ok(p) => spec == Ok::<(ScheduleModel, int), ErrModel>((p.0@, p.1 as int)),
        Err(e) => spec == Err::<(ScheduleModel, int), ErrModel>(e@),
    }
}

/// The words `from..to` with single spaces between them.
fn join_words(words: &Vec<String>, from: usize, to: usize) -> (r: String)
    requires
        from <= to <= words@.len(),
    ensures
        r@ == text::join(text::texts(words@).subrange(from as int, to as int), " "@),
{
    let mut part: Vec<String> = Vec::new();
    let mut i: usize = from;
    assert(text::texts(part@) =~= text::texts(words@).subrange(from as int, from as int));
    while i < to
        invariant
            from <= i <= to <= words@.len(),
            text::texts(part@) == text::texts(words@).subrange(from as int, i as int),
        decreases to - i,
    {
        let w = words[i].clone();
        proof {
            assert(text::texts(part@.push(w)) =~= text::texts(part@).push(w@));
            assert(text::texts(words@).subrange(from as int, i + 1) =~= text::texts(words@).subrange(
                from as int,
                i as int,
            ).push(w@));
        }
        part.push(w);
        i = i + 1;
    }
    text::join_strings(&part, " ")
}

fn parse_at_schedule(words: &Vec<String>, span: Span) -> (r: Result<
    (CronScheduleAst, usize),
    ParseError,
>)
    ensures
        schedules(r, resolved::at_schedule(text::texts(words@), span)),
        r matches Ok(p) ==> p.1 <= words@.len(),
{
    assert(text::texts(words@).len() == words@.len());
    if words.len() < 2 {
        return Err(schedule_error(span, "expected time after `at`", "at 9:00"));
    }
    assert(text::texts(words@)[1] == words@[1]@);
    let time = words[1].clone();
    if word_is(words, 2, "on") {
        if words.len() < 4 {
            return Err(
                schedule_error(span, "expected day filter after `on`", "at 9am on weekdays"),
            );
        }
        assert(text::texts(words@)[3] == words@[3]@);
        let days = words[3].clone();
        Ok((CronScheduleAst::At { time, days: Some(days) }, 4))
    } else {
        Ok((CronScheduleAst::At { time, days: None }, 2))
    }
}

fn parse_on_schedule(words: &Vec<String>, span: Span) -> (r: Result<
    (CronScheduleAst, usize),
    ParseError,
>)
    ensures
        schedules(r, resolved::on_schedule(text::texts(words@), span)),
        r matches Ok(p) ==> p.1 <= words@.len(),
{
    assert(text::texts(words@).len() == words@.len());
    if words.len() < 2 {
        return Err(schedule_error(span, "expected day filter after `on`", "on weekdays at 9am"));
    }
    assert(text::texts(words@)[1] == words@[1]@);
    let days = words[1].clone();
    if !word_is(words, 2, "at") {
        return Err(
            schedule_error(span, "expected `at <time>` after day filter", "on weekdays at 9am"),
        );
    }
    if words.len() < 4 {
        return Err(schedule_error(span, "expected time after `at`", "on weekdays at 9am"));
    }
    assert(text::texts(words@)[3] == words@[3]@);
    let time = words[3].clone();
    Ok((CronScheduleAst::At { time, days: Some(days) }, 4))
}

fn parse_second_duration(words: &Vec<String>) -> (r: Option<Duration>)
    ensures
        r == resolved::second_duration(text::texts(words@)),
{
    assert(text::texts(words@).len() == words@.len());
    if words.len() < 2 {
        None
    } else {
        assert(text::texts(words@)[1] == words@[1]@);
        parse_duration_str(words[1].as_str())
    }
}

fn parse_do_schedule(words: &Vec<String>, span: Span) -> (r: Result<
    (CronScheduleAst, usize),
    ParseError,
>)
    ensures
        schedules(r, resolved::do_schedule(text::texts(words@), span)),
        r matches Ok(p) ==> p.1 <= words@.len(),
{
    let ghost ws = text::texts(words@);
    assert(ws.len() == words@.len());
    let mut i: usize = 0;
    while i < words.len() && !word_is(words, i, "do")
        invariant
            i <= words@.len(),
            ws == text::texts(words@),
            resolved::do_index(ws, 0) == resolved::do_index(ws, i as int),
        decreases words@.len() - i,
    {
        i = i + 1;
    }
    if i >= words.len() {
        return Err(
            ParseError {
                span,
                message:
                    "expected schedule keyword (every, at, on, in, cron, daily, ...) or `<5-field-crontab> do <cmd>`".to_owned(),
                kind: ParseErrorKind::InvalidCronSchedule,
                suggestions: text::texts4(
                    "every 5m".to_owned(),
                    "at 9:00".to_owned(),
                    "on weekdays at 9am".to_owned(),
                    "*/5 * * * * do curl api/health".to_owned(),
                ),
            },
        );
    }
    if i == 0 {
        return Err(
            schedule_error(
                span,
                "expected schedule text before `do`",
                "*/5 * * * * do curl api/health",
            ),
        );
    }
    if i == 5 {
        assert(ws.subrange(0, 5) =~= ws.take(5));
        return Ok((CronScheduleAst::Crontab(join_words(words, 0, 5)), 6));
    }
    Err(
        ParseError::with2(
            span,
            "`do` currently supports five-field crontab schedules only".to_owned(),
            ParseErrorKind::InvalidCronSchedule,
            "*/5 * * * * do curl api/health".to_owned(),
            "cron */5 * * * * curl api/health".to_owned(),
        ),
    )
}

/// The schedule at the start of the words, and how many of them it takes.
pub fn parse_bare_cron_schedule(words: &Vec<String>, span: Span) -> (r: Result<
    (CronScheduleAst, usize),
    ParseError,
>)
    ensures
        schedules(r, resolved::schedule_of(text::texts(words@), span)),
        r matches Ok(p) ==> p.1 <= words@.len(),
{
    let ghost ws = text::texts(words@);
    assert(ws.len() == words@.len());
    if words.len() == 0 {
        return Err(schedule_missing(span));
    }
    assert(ws[0] == words@[0]@);
    let keyword = words[0].as_str();
    let start = if text::str_eq(keyword, "every") {
        match parse_second_duration(words) {
            Some(d) => Ok((CronScheduleAst::Every(d), 2)),
            None => Err(
                schedule_error(span, "expected duration (e.g. 5m, 30s) after `every`", "every 5m"),
            ),
        }
    } else if text::str_eq(keyword, "at") {
        parse_at_schedule(words, span)
    } else if text::str_eq(keyword, "on") {
        parse_on_schedule(words, span)
    } else if text::str_eq(keyword, "in") {
        match parse_second_duration(words) {
            Some(d) => Ok((CronScheduleAst::In(d), 2)),
            None => Err(
                schedule_error(span, "expected duration (e.g. 5m, 30s) after `in`", "in 30s"),
            ),
        }
    } else if text::str_eq(keyword, "cron") {
        if words.len() < 6 {
            Err(schedule_error(span, "expected five cron fields after `cron`", "cron */5 * * * *"))
        } else {
            Ok((CronScheduleAst::Crontab(join_words(words, 1, 6)), 6))
        }
    } else if text::str_eq(keyword, "daily") || text::str_eq(keyword, "hourly") || text::str_eq(keyword, "weekly")
        || text::str_eq(keyword, "monthly") {
        Ok((CronScheduleAst::Preset(keyword.to_owned()), 1))
    } else {
        parse_do_schedule(words, span)
    };
    match start {
        Err(e) => Err(e),
        Ok((schedule, consumed)) => {
            assert(schedules(Ok((schedule, consumed)), resolved::schedule_start(ws, span)));
            assert(consumed <= words@.len());
            if word_is(words, consumed, "do") {
                Ok((schedule, consumed + 1))
            } else {
                Ok((schedule, consumed))
            }
        },
    }
}

fn is_mode_help_request(argument: &Argument) -> (r: bool)
    ensures
        r == resolved::asks_for_help(argument@),
{
    match argument {
        Argument::Chain(ChainNode::Leaf(JobExpr::Pipeline(p))) => {
            let ghost segs = seg_models(p.segments@);
            assert(segs.len() == p.segments@.len());
            if p.segments.len() != 1 {
                return false;
            }
            let seg = &p.segments[0];
            assert(segs[0] == seg@);
            assert(text::texts(seg.command@).len() == seg.command@.len());
            if seg.pipe_to_next.is_some() || seg.command.len() != 1 {
                return false;
            }
            assert(text::texts(seg.command@) =~= seq![seg.command@[0]@]);
            assert(seq![seg.command@[0]@][0] == seg.command@[0]@);
            assert(seq!["?"@][0] == "?"@);
            text::str_eq(seg.command[0].as_str(), "?")
        },
        _ => false,
    }
}

fn mode_help_topic(mode: Mode) -> (r: &'static str)
    ensures
        r@ == resolved::help_topic(mode),
{
    match mode {
        Mode::Job => "job",
        Mode::Cron => "cron",
    }
}

// ── Whole inputs ──

proof fn lemma_find_spec(specs: Seq<SpecModel>, name: Text)
    ensures
        find_spec(specs, name) matches Some(c) ==> c.name == name,
    decreases specs.len(),
{
    if specs.len() > 0 && specs[0].name != name {
        lemma_find_spec(specs.drop_first(), name);
    }
}

proof fn lemma_chain_commands()
    ensures
        find_spec(registry(), "run"@) matches Some(c) && c.arg_kind is Chain,
        find_spec(registry(), "cron"@) matches Some(c) && c.arg_kind is Cron,
{
    reveal_strlit("run");
    reveal_strlit("cron");
    reveal_with_fuel(find_spec, 3);
    assert("run"@.len() != "cron"@.len());
    assert(registry().drop_first()[0].name == "cron"@);
}

/// Every tree of the parser has the shape that the resolver takes.
pub proof fn lemma_parse_well_shaped(input: Text)
    ensures
        grammar::parse(input) matches Ok(ast) ==> resolved::well_shaped(ast),
        grammar::parse_file(input) matches Ok(ast) ==> resolved::well_shaped(ast),
{
    if let Ok(ts) = grammar::parser_tokens(input) {
        let chunks = grammar::statements(ts, input);
        lemma_items_well_shaped(chunks, text::byte_len(input) as usize, input);
        if chunks.len() == 1 {
            lemma_statement_well_shaped(chunks[0].tokens, text::byte_len(input) as usize, input);
        }
    }
    let file = grammar::normalized(input);
    if let Ok(ts) = grammar::parser_tokens(file) {
        lemma_items_well_shaped(grammar::statements(ts, file), text::byte_len(file) as usize, file);
    }
}

proof fn lemma_items_well_shaped(chunks: Seq<grammar::ChunkModel>, len: usize, input: Text)
    ensures
        grammar::items(chunks, len, input) matches Ok(items) ==> resolved::items_well_shaped(items),
    decreases chunks.len(),
{
    if chunks.len() > 0 {
        lemma_items_well_shaped(chunks.drop_last(), len, input);
        lemma_statement_well_shaped(chunks.last().tokens, len, input);
        if let Ok(done) = grammar::items(chunks.drop_last(), len, input) {
            if let Ok(it) = grammar::item(chunks.last(), len, input) {
                assert(done.push(it).drop_last() =~= done);
            }
        }
    }
}

proof fn lemma_statement_well_shaped(ts: Seq<super::token::SpannedModel>, len: usize, input: Text)
    ensures
        grammar::single_statement(ts, len, input) matches Ok(ast) ==> resolved::well_shaped(ast),
{
}

/// A tree that can be resolved has a chain behind `run` and `cron`.
proof fn lemma_shape_of_command(name: Text, params: Seq<(Text, ValueModel)>, arg: ArgModel, span: Span)
    requires
        resolved::well_shaped(
            AstModel::Command { name, mode_params: params, argument: arg, span },
        ),
    ensures
        name == "run"@ || name == "cron"@ ==> arg is Chain,
{
    lemma_chain_commands();
}

/// What an input line means in a mode.
pub open spec fn meaning(input: Text, mode: Mode) -> Result<ResolvedModel, ErrModel> {
    match grammar::parse(input) {
        Ok(ast) => resolved::resolved(ast, mode),
        Err(e) => Err(e),
    }
}

/// What a script file means.
pub open spec fn file_meaning(input: Text) -> Result<ResolvedModel, ErrModel> {
    match grammar::parse_file(input) {
        Ok(ast) => resolved::resolved(ast, Mode::Job),
        Err(e) => Err(e),
    }
}

/// Parses and resolves an input line.
pub fn parse_command(input: &str, mode: Mode) -> (r: Result<ResolvedCommand, ParseError>)
    ensures
        resolves(r, meaning(input@, mode)),
{
    match Parser::parse(input) {
        Err(e) => Err(e),
        Ok(ast) => {
            proof {
                lemma_parse_well_shaped(input@);
            }
            Resolver::resolve(ast, mode)
        },
    }
}

/// Parses and resolves a script file.
pub fn parse_file_script_command(input: &str) -> (r: Result<ResolvedCommand, ParseError>)
    ensures
        resolves(r, file_meaning(input@)),
{
    match Parser::parse_file_script(input) {
        Err(e) => Err(e),
        Ok(ast) => {
            proof {
                lemma_parse_well_shaped(input@);
            }
            Resolver::resolve(ast, Mode::Job)
        },
    }
}

} // verus!
