//! Commands ready for execution, and what each tree resolves to.

use vstd::prelude::*;

use super::ast::{ArgModel, AstModel, ItemModel, ScheduleModel};
use super::error::{error_with, error_with2, plain_error, ErrModel, ParseErrorKind};
use super::token::{id_text, Span, ValueModel};
use crate::command::{params_map, ModeParams};
use crate::command_spec::{find_spec, registry};
use crate::cron::{crontab_ok, day_filter_of, time_of, CronModel, CronPreset, CronSchedule};
use crate::duration::{duration_of, duration_text};
use crate::mode::Mode;
use crate::pipeline::{ChainModel, ChainNode, JobModel, ParallelOp, PipeOp, SegModel, SerialOp};
use crate::text;
use crate::text::Text;

verus! {

/// Where a script came from.
#[derive(Debug, PartialEq, Eq)]
pub enum ScriptSource {
    Inline,
    File { path: String },
}

/// Command ready for execution.
#[allow(inconsistent_fields)]
#[derive(Debug)]
pub enum ResolvedCommand {
    /// One script submission containing one or more top-level commands.
    Script { mode: Mode, source: ScriptSource, items: Vec<ResolvedScriptItem> },
    /// Run a chain of jobs.
    Run { chain: ChainNode, params: ModeParams },
    /// Add a cron job.
    Cron { schedule: CronSchedule, chain: ChainNode, params: ModeParams },
    /// Kill a job, or remove a cron.
    Kill { id: String },
    /// Kill a job only.
    KillJob { id: String },
    /// Remove a cron only.
    RemoveCron { id: String },
    /// Retry a failed job.
    Retry { id: String },
    /// View stdout.
    Out { id: String, tail_bytes: Option<usize> },
    /// View stderr.
    ErrOutput { id: String },
    /// View stdout and stderr with independent limits.
    JobOutput { id: String, stdout_bytes: Option<usize>, stderr_bytes: Option<usize> },
    /// Foreground attach.
    Fg { id: String },
    /// Wait for job completion.
    Wait { id: String },
    /// Send stdin.
    Send { id: String, data: String },
    /// Cancel a pending job.
    Cancel { id: String },
    /// Pause a cron.
    Pause { id: String },
    /// Resume a cron.
    Resume { id: String },
    /// View log.
    Log { id: Option<String> },
    /// View log with pagination/tailing.
    ShowLog { id: Option<String>, limit: Option<usize>, tail_bytes: Option<usize> },
    /// List jobs.
    Jobs,
    /// List jobs with pagination metadata.
    ListJobs { limit: Option<usize> },
    /// List crons.
    Crons,
    /// List crons with pagination metadata.
    ListCrons { limit: Option<usize> },
    /// List scopes.
    Scopes,
    /// List scopes with pagination metadata.
    ListScopes { limit: Option<usize> },
    /// Environment operations.
    Env { subcommand: Option<String> },
    /// Show HEAD environment with output limits.
    ShowEnv { tail_bytes: Option<usize> },
    /// Change directory.
    Cd { path: String },
    /// Scope operations.
    Scope { subcommand: Option<String> },
    /// Help.
    Help { topic: Option<String> },
    /// Config operations.
    Config { subcommand: Option<String> },
    /// Show config with output limits.
    ShowConfig { tail_bytes: Option<usize> },
    /// Clear REPL.
    Clear,
    /// Quit.
    Quit,
    /// Wrapper control: on / off / status.
    Wrap { subcommand: Option<String> },
}

#[derive(Debug)]
pub struct ResolvedScriptItem {
    pub source: String,
    pub command: Box<ResolvedCommand>,
}

/// The commands that input can resolve to, over character sequences. The
/// remaining variants of `ResolvedCommand` come from typed requests only.
pub enum ResolvedModel {
    Script { mode: Mode, items: Seq<ResolvedItemModel> },
    Run { chain: ChainModel, params: Map<Text, ValueModel> },
    Cron { schedule: CronModel, chain: ChainModel, params: Map<Text, ValueModel> },
    Kill(Text),
    Retry(Text),
    Out { id: Text, tail_bytes: Option<usize> },
    ErrOutput(Text),
    Fg(Text),
    Wait(Text),
    Send { id: Text, data: Text },
    Cancel(Text),
    Pause(Text),
    Resume(Text),
    Log(Option<Text>),
    Jobs,
    Crons,
    Scopes,
    Env(Option<Text>),
    Cd(Text),
    Scope(Option<Text>),
    Help(Option<Text>),
    Config(Option<Text>),
    Clear,
    Quit,
    Wrap(Option<Text>),
    /// Not from input.
    Typed,
}

pub struct ResolvedItemModel {
    pub source: Text,
    pub command: Box<ResolvedModel>,
}

/// An optional string over its characters.
pub open spec fn opt_text(s: Option<String>) -> Option<Text> {
    match s {
        Some(t) => Some(t@),
        None => None,
    }
}

impl ResolvedCommand {
    pub open spec fn model(self) -> ResolvedModel
        decreases self,
    {
        match self {
            ResolvedCommand::Script { mode, source, items } => if source is Inline {
                ResolvedModel::Script { mode, items: resolved_items(items@) }
            } else {
                ResolvedModel::Typed
            },
            ResolvedCommand::Run { chain, params } => ResolvedModel::Run {
                chain: chain.model(),
                params: params@,
            },
            ResolvedCommand::Cron { schedule, chain, params } => ResolvedModel::Cron {
                schedule: schedule@,
                chain: chain.model(),
                params: params@,
            },
            ResolvedCommand::Kill { id } => ResolvedModel::Kill(id@),
            ResolvedCommand::Retry { id } => ResolvedModel::Retry(id@),
            ResolvedCommand::Out { id, tail_bytes } => ResolvedModel::Out { id: id@, tail_bytes },
            ResolvedCommand::ErrOutput { id } => ResolvedModel::ErrOutput(id@),
            ResolvedCommand::Fg { id } => ResolvedModel::Fg(id@),
            ResolvedCommand::Wait { id } => ResolvedModel::Wait(id@),
            ResolvedCommand::Send { id, data } => ResolvedModel::Send { id: id@, data: data@ },
            ResolvedCommand::Cancel { id } => ResolvedModel::Cancel(id@),
            ResolvedCommand::Pause { id } => ResolvedModel::Pause(id@),
            ResolvedCommand::Resume { id } => ResolvedModel::Resume(id@),
            ResolvedCommand::Log { id } => ResolvedModel::Log(opt_text(id)),
            ResolvedCommand::Jobs => ResolvedModel::Jobs,
            ResolvedCommand::Crons => ResolvedModel::Crons,
            ResolvedCommand::Scopes => ResolvedModel::Scopes,
            ResolvedCommand::Env { subcommand } => ResolvedModel::Env(opt_text(subcommand)),
            ResolvedCommand::Cd { path } => ResolvedModel::Cd(path@),
            ResolvedCommand::Scope { subcommand } => ResolvedModel::Scope(opt_text(subcommand)),
            ResolvedCommand::Help { topic } => ResolvedModel::Help(opt_text(topic)),
            ResolvedCommand::Config { subcommand } => ResolvedModel::Config(opt_text(subcommand)),
            ResolvedCommand::Clear => ResolvedModel::Clear,
            ResolvedCommand::Quit => ResolvedModel::Quit,
            ResolvedCommand::Wrap { subcommand } => ResolvedModel::Wrap(opt_text(subcommand)),
            _ => ResolvedModel::Typed,
        }
    }
}

impl ResolvedScriptItem {
    pub open spec fn model(self) -> ResolvedItemModel
        decreases self,
    {
        ResolvedItemModel { source: self.source@, command: Box::new(self.command.model()) }
    }
}

pub open spec fn resolved_items(v: Seq<ResolvedScriptItem>) -> Seq<ResolvedItemModel>
    decreases v,
{
    if v.len() == 0 {
        Seq::empty()
    } else {
        resolved_items(v.drop_last()).push(v.last().model())
    }
}

// ── Which trees can be resolved ──

/// Whether a tree has the shape that the parser gives to trees: a registered
/// command name, and a chain where the command takes one.
pub open spec fn well_shaped(ast: AstModel) -> bool
    decreases ast,
{
    match ast {
        AstModel::Script { items, .. } => items_well_shaped(items),
        AstModel::BareInput { .. } => true,
        AstModel::Command { name, argument, .. } => match find_spec(registry(), name) {
            Some(c) => (c.arg_kind is Chain || c.arg_kind is Cron) ==> argument is Chain,
            None => false,
        },
    }
}

pub open spec fn items_well_shaped(items: Seq<ItemModel>) -> bool
    decreases items,
{
    items.len() == 0 || (items_well_shaped(items.drop_last()) && well_shaped(
        *items.last().statement,
    ))
}

// ── Cron input ──

pub open spec fn cron_hint() -> Text {
    ":cron every 5m cargo test"@
}

pub open spec fn schedule_missing(span: Span) -> ErrModel {
    error_with(
        span,
        "`:cron` requires a schedule expression"@,
        ParseErrorKind::MissingArgument,
        cron_hint(),
    )
}

pub open spec fn schedule_error(span: Span, message: Text, hint: Text) -> ErrModel {
    error_with(span, message, ParseErrorKind::InvalidCronSchedule, hint)
}

/// The index of the first of the words that is `do`, or their number.
pub open spec fn do_index(ws: Seq<Text>, i: int) -> int
    decreases ws.len() - i,
{
    if 0 <= i < ws.len() && ws[i] != "do"@ {
        do_index(ws, i + 1)
    } else {
        i
    }
}

/// The schedule that begins with a day filter or a time.
pub open spec fn at_schedule(ws: Seq<Text>, span: Span) -> Result<(ScheduleModel, int), ErrModel> {
    if ws.len() < 2 {
        Err(schedule_error(span, "expected time after `at`"@, "at 9:00"@))
    } else if ws.len() > 2 && ws[2] == "on"@ {
        if ws.len() < 4 {
            Err(schedule_error(span, "expected day filter after `on`"@, "at 9am on weekdays"@))
        } else {
            Ok((ScheduleModel::At { time: ws[1], days: Some(ws[3]) }, 4))
        }
    } else {
        Ok((ScheduleModel::At { time: ws[1], days: None }, 2))
    }
}

pub open spec fn on_schedule(ws: Seq<Text>, span: Span) -> Result<(ScheduleModel, int), ErrModel> {
    if ws.len() < 2 {
        Err(schedule_error(span, "expected day filter after `on`"@, "on weekdays at 9am"@))
    } else if !(ws.len() > 2 && ws[2] == "at"@) {
        Err(schedule_error(span, "expected `at <time>` after day filter"@, "on weekdays at 9am"@))
    } else if ws.len() < 4 {
        Err(schedule_error(span, "expected time after `at`"@, "on weekdays at 9am"@))
    } else {
        Ok((ScheduleModel::At { time: ws[3], days: Some(ws[1]) }, 4))
    }
}

/// The span of time in the second word.
pub open spec fn second_duration(ws: Seq<Text>) -> Option<crate::duration::Duration> {
    if ws.len() < 2 {
        None
    } else {
        duration_of(ws[1])
    }
}

/// Five crontab fields in front of `do`.
pub open spec fn do_schedule(ws: Seq<Text>, span: Span) -> Result<(ScheduleModel, int), ErrModel> {
    let i = do_index(ws, 0);
    if i >= ws.len() {
        Err(
            ErrModel {
                span,
                message:
                    "expected schedule keyword (every, at, on, in, cron, daily, ...) or `<5-field-crontab> do <cmd>`"@,
                kind: ParseErrorKind::InvalidCronSchedule,
                suggestions: seq![
                    "every 5m"@,
                    "at 9:00"@,
                    "on weekdays at 9am"@,
                    "*/5 * * * * do curl api/health"@,
                ],
            },
        )
    } else if i == 0 {
        Err(
            schedule_error(
                span,
                "expected schedule text before `do`"@,
                "*/5 * * * * do curl api/health"@,
            ),
        )
    } else if i == 5 {
        Ok((ScheduleModel::Crontab(text::join(ws.take(5), " "@)), 6))
    } else {
        Err(
            error_with2(
                span,
                "`do` currently supports five-field crontab schedules only"@,
                ParseErrorKind::InvalidCronSchedule,
                "*/5 * * * * do curl api/health"@,
                "cron */5 * * * * curl api/health"@,
            ),
        )
    }
}

/// The schedule at the start of the words, and how many of them it takes,
/// before an optional `do`.
pub open spec fn schedule_start(ws: Seq<Text>, span: Span) -> Result<(ScheduleModel, int), ErrModel> {
    let k = ws[0];
    if ws.len() == 0 {
        Err(schedule_missing(span))
    } else if k == "every"@ {
        match second_duration(ws) {
            Some(d) => Ok((ScheduleModel::Every(d), 2)),
            None => Err(
                schedule_error(span, "expected duration (e.g. 5m, 30s) after `every`"@, "every 5m"@),
            ),
        }
    } else if k == "at"@ {
        at_schedule(ws, span)
    } else if k == "on"@ {
        on_schedule(ws, span)
    } else if k == "in"@ {
        match second_duration(ws) {
            Some(d) => Ok((ScheduleModel::In(d), 2)),
            None => Err(
                schedule_error(span, "expected duration (e.g. 5m, 30s) after `in`"@, "in 30s"@),
            ),
        }
    } else if k == "cron"@ {
        if ws.len() < 6 {
            Err(schedule_error(span, "expected five cron fields after `cron`"@, "cron */5 * * * *"@))
        } else {
            Ok((ScheduleModel::Crontab(text::join(ws.subrange(1, 6), " "@)), 6))
        }
    } else if k == "daily"@ || k == "hourly"@ || k == "weekly"@ || k == "monthly"@ {
        Ok((ScheduleModel::Preset(k), 1))
    } else {
        do_schedule(ws, span)
    }
}

/// The schedule at the start of the words, and how many of them it takes, a
/// `do` behind it included.
pub open spec fn schedule_of(ws: Seq<Text>, span: Span) -> Result<(ScheduleModel, int), ErrModel> {
    match schedule_start(ws, span) {
        Err(e) => Err(e),
        Ok((s, n)) => if n < ws.len() && ws[n] == "do"@ {
            Ok((s, n + 1))
        } else {
            Ok((s, n))
        },
    }
}

/// The words of the first process of a job.
pub open spec fn first_job_words(j: JobModel) -> Option<Seq<Text>>
    decreases j,
{
    match j {
        JobModel::Pipeline(segs) => if segs.len() == 0 {
            None
        } else {
            Some(segs[0].command)
        },
        JobModel::And(l, _) => first_job_words(*l),
        JobModel::Or(l, _) => first_job_words(*l),
    }
}

/// The words of the first process of a chain.
pub open spec fn first_words(c: ChainModel) -> Option<Seq<Text>>
    decreases c,
{
    match c {
        ChainModel::Leaf(j) => first_job_words(j),
        ChainModel::Serial(_, l, _) => first_words(*l),
        ChainModel::Parallel(_, l, _) => first_words(*l),
    }
}

/// A job without the first `n` words of its first process.
pub open spec fn job_without(j: JobModel, n: int) -> JobModel
    decreases j,
{
    match j {
        JobModel::Pipeline(segs) => if segs.len() == 0 {
            j
        } else {
            JobModel::Pipeline(
                segs.update(0, SegModel { command: segs[0].command.skip(n), ..segs[0] }),
            )
        },
        JobModel::And(l, r) => JobModel::And(Box::new(job_without(*l, n)), r),
        JobModel::Or(l, r) => JobModel::Or(Box::new(job_without(*l, n)), r),
    }
}

/// A chain without the first `n` words of its first process.
pub open spec fn chain_without(c: ChainModel, n: int) -> ChainModel
    decreases c,
{
    match c {
        ChainModel::Leaf(j) => ChainModel::Leaf(job_without(j, n)),
        ChainModel::Serial(op, l, r) => ChainModel::Serial(op, Box::new(chain_without(*l, n)), r),
        ChainModel::Parallel(op, l, r) => ChainModel::Parallel(
            op,
            Box::new(chain_without(*l, n)),
            r,
        ),
    }
}

/// The schedule at the start of a chain, and the chain behind it.
pub open spec fn split_cron(c: ChainModel, span: Span) -> Result<
    (ScheduleModel, ChainModel),
    ErrModel,
> {
    match first_words(c) {
        None => Err(schedule_missing(span)),
        Some(ws) => match schedule_of(ws, span) {
            Err(e) => Err(e),
            Ok((s, n)) => if ws.len() == n {
                Err(
                    plain_error(
                        span,
                        "`:cron` requires a command body after schedule"@,
                        ParseErrorKind::MissingArgument,
                    ),
                )
            } else {
                Ok((s, chain_without(c, n)))
            },
        },
    }
}

pub open spec fn preset_of(name: Text) -> Option<CronPreset> {
    if name == "daily"@ {
        Some(CronPreset::Daily)
    } else if name == "hourly"@ {
        Some(CronPreset::Hourly)
    } else if name == "weekly"@ {
        Some(CronPreset::Weekly)
    } else if name == "monthly"@ {
        Some(CronPreset::Monthly)
    } else {
        None
    }
}

/// The schedule that was meant, if the times, days and fields are valid and
/// spans of time are not zero.
pub open spec fn schedule_meant(s: ScheduleModel) -> Option<CronModel> {
    match s {
        ScheduleModel::Every(d) => if d.secs == 0 && d.millis == 0 {
            None
        } else {
            Some(CronModel::Interval(d))
        },
        ScheduleModel::In(d) => if d.secs == 0 && d.millis == 0 {
            None
        } else {
            Some(CronModel::Delay(d))
        },
        ScheduleModel::At { time, days } => match (time_of(time), days) {
            (Some(t), None) => Some(CronModel::TimeOfDay(t as u32, None)),
            (Some(t), Some(names)) => match day_filter_of(names) {
                Some(f) => Some(CronModel::TimeOfDay(t as u32, Some(f))),
                None => None,
            },
            (None, _) => None,
        },
        ScheduleModel::Crontab(e) => if crontab_ok(text::words(e)) {
            Some(CronModel::Crontab(e))
        } else {
            None
        },
        ScheduleModel::Preset(name) => match preset_of(name) {
            Some(p) => Some(CronModel::Preset(p)),
            None => None,
        },
    }
}

/// A schedule as it is shown in messages.
pub open spec fn schedule_text(s: ScheduleModel) -> Text {
    match s {
        ScheduleModel::Every(d) => "every "@ + duration_text(d),
        ScheduleModel::At { time, days: Some(d) } => "at "@ + time + " on "@ + d,
        ScheduleModel::At { time, days: None } => "at "@ + time,
        ScheduleModel::In(d) => "in "@ + duration_text(d),
        ScheduleModel::Crontab(e) => "cron "@ + e,
        ScheduleModel::Preset(name) => name,
    }
}

/// The cron that a chain describes.
pub open spec fn cron_of(c: ChainModel, params: Map<Text, ValueModel>, span: Span) -> Result<
    ResolvedModel,
    ErrModel,
> {
    match split_cron(c, span) {
        Err(e) => Err(e),
        Ok((s, body)) => match schedule_meant(s) {
            Some(schedule) => Ok(ResolvedModel::Cron { schedule, chain: body, params }),
            None => Err(
                ErrModel {
                    span,
                    message: "cannot parse cron schedule from: "@ + schedule_text(s),
                    kind: ParseErrorKind::InvalidCronSchedule,
                    suggestions: seq!["every 5m"@, "at 09:00"@, "daily"@],
                },
            ),
        },
    }
}

// ── Bare input ──

/// Whether the input is a single `?`.
pub open spec fn asks_for_help(arg: ArgModel) -> bool {
    match arg {
        ArgModel::Chain(ChainModel::Leaf(JobModel::Pipeline(segs))) => segs.len() == 1
            && segs[0].pipe_to_next is None && segs[0].command == seq!["?"@],
        _ => false,
    }
}

pub open spec fn help_topic(mode: Mode) -> Text {
    match mode {
        Mode::Job => "job"@,
        Mode::Cron => "cron"@,
    }
}

/// What bare input means in a mode.
pub open spec fn bare(arg: ArgModel, mode: Mode, span: Span) -> Result<ResolvedModel, ErrModel> {
    if asks_for_help(arg) {
        Ok(ResolvedModel::Help(Some(help_topic(mode))))
    } else {
        match (mode, arg) {
            (Mode::Job, ArgModel::Chain(chain)) => Ok(
                ResolvedModel::Run { chain, params: Map::empty() },
            ),
            (Mode::Job, ArgModel::Empty) => Err(
                plain_error(span, "empty input"@, ParseErrorKind::MissingArgument),
            ),
            (Mode::Job, _) => Err(
                plain_error(
                    span,
                    "JOB mode expects a command to run"@,
                    ParseErrorKind::UnexpectedToken,
                ),
            ),
            (Mode::Cron, ArgModel::Chain(chain)) => cron_of(chain, Map::empty(), span),
            (Mode::Cron, ArgModel::Empty) => Err(schedule_missing(span)),
            (Mode::Cron, _) => Err(
                plain_error(
                    span,
                    "CRON mode expects a schedule expression and command body"@,
                    ParseErrorKind::UnexpectedToken,
                ),
            ),
        }
    }
}

// ── Commands ──

pub open spec fn id_of(arg: ArgModel, span: Span, command: Text) -> Result<Text, ErrModel> {
    match arg {
        ArgModel::IdRef(k, n) => Ok(id_text(k, n)),
        _ => Err(
            error_with(
                span,
                "`:"@ + command + "` requires an ID (e.g. J1, C1)"@,
                ParseErrorKind::InvalidIdRef,
                ":"@ + command + " J1"@,
            ),
        ),
    }
}

/// A command on one ID.
pub open spec fn on_id(r: Result<Text, ErrModel>, f: spec_fn(Text) -> ResolvedModel) -> Result<
    ResolvedModel,
    ErrModel,
> {
    match r {
        Ok(id) => Ok(f(id)),
        Err(e) => Err(e),
    }
}

pub open spec fn tail_of(arg: ArgModel) -> (Text, Option<usize>) {
    match arg {
        ArgModel::TailRef(k, n, b) => (id_text(k, n), b),
        ArgModel::IdRef(k, n) => (id_text(k, n), None),
        _ => (Seq::empty(), None),
    }
}

pub open spec fn optional_text_of(arg: ArgModel) -> Option<Text> {
    match arg {
        ArgModel::Text(t) => if t.len() > 0 {
            Some(t)
        } else {
            None
        },
        _ => None,
    }
}

/// The words of a pipeline as they would be written.
pub open spec fn seg_text(s: SegModel) -> Text {
    let cmd = text::join(s.command, " "@);
    match s.pipe_to_next {
        Some(PipeOp::Stdout) => cmd + " |>"@,
        Some(PipeOp::StdoutStderr) => cmd + " |&>"@,
        Some(PipeOp::StderrOnly) => cmd + " |!>"@,
        None => cmd,
    }
}

pub open spec fn pipeline_text(segs: Seq<SegModel>) -> Text {
    text::join(segs.map_values(|s: SegModel| seg_text(s)), " "@)
}

pub open spec fn job_text(j: JobModel) -> Text
    decreases j,
{
    match j {
        JobModel::Pipeline(segs) => pipeline_text(segs),
        JobModel::And(l, r) => job_text(*l) + " && "@ + job_text(*r),
        JobModel::Or(l, r) => job_text(*l) + " || "@ + job_text(*r),
    }
}

pub open spec fn serial_text(op: SerialOp) -> Text {
    match op {
        SerialOp::Then => " -> "@,
        SerialOp::Always => " ~> "@,
    }
}

pub open spec fn parallel_text(op: ParallelOp) -> Text {
    match op {
        ParallelOp::All => " ||| "@,
        ParallelOp::Race => " |?| "@,
    }
}

/// A chain as it would be written.
pub open spec fn chain_text(c: ChainModel) -> Text
    decreases c,
{
    match c {
        ChainModel::Leaf(j) => job_text(j),
        ChainModel::Serial(op, l, r) => chain_text(*l) + serial_text(op) + chain_text(*r),
        ChainModel::Parallel(op, l, r) => chain_text(*l) + parallel_text(op) + chain_text(*r),
    }
}

pub open spec fn text_of(arg: ArgModel) -> Text {
    match arg {
        ArgModel::Text(t) => t,
        ArgModel::Chain(c) => chain_text(c),
        _ => Seq::empty(),
    }
}

/// The first word of the text and what follows it.
pub open spec fn target_and_text(arg: ArgModel, span: Span, command: Text) -> Result<
    (Text, Text),
    ErrModel,
> {
    let t = match arg {
        ArgModel::Text(t) => text::trim(t),
        _ => Seq::empty(),
    };
    let rest = text::trim(t.skip(text::word_len(t)));
    let hint = ":"@ + command + " J1 your input"@;
    if t.len() == 0 {
        Err(
            error_with(
                span,
                "`:"@ + command + "` requires a target and input"@,
                ParseErrorKind::MissingArgument,
                hint,
            ),
        )
    } else if rest.len() == 0 {
        Err(
            error_with(
                span,
                "`:"@ + command + "` requires input after the target"@,
                ParseErrorKind::MissingArgument,
                hint,
            ),
        )
    } else {
        Ok((t.take(text::word_len(t)), rest))
    }
}

/// What a command means.
pub open spec fn named(
    name: Text,
    params: Map<Text, ValueModel>,
    arg: ArgModel,
    span: Span,
) -> Result<ResolvedModel, ErrModel> {
    if name == "run"@ {
        Ok(ResolvedModel::Run { chain: arg->Chain_0, params })
    } else if name == "cron"@ {
        cron_of(arg->Chain_0, params, span)
    } else if name == "kill"@ {
        on_id(id_of(arg, span, name), |id: Text| ResolvedModel::Kill(id))
    } else if name == "retry"@ {
        on_id(id_of(arg, span, name), |id: Text| ResolvedModel::Retry(id))
    } else if name == "out"@ {
        on_id(id_of(arg, span, name), |id: Text| ResolvedModel::Out { id, tail_bytes: None })
    } else if name == "tail"@ {
        Ok(
            ResolvedModel::Out {
                id: tail_of(arg).0,
                tail_bytes: Some(
                    match tail_of(arg).1 {
                        Some(b) => b,
                        None => 8192,
                    },
                ),
            },
        )
    } else if name == "err"@ {
        on_id(id_of(arg, span, name), |id: Text| ResolvedModel::ErrOutput(id))
    } else if name == "fg"@ {
        on_id(id_of(arg, span, name), |id: Text| ResolvedModel::Fg(id))
    } else if name == "wait"@ {
        on_id(id_of(arg, span, name), |id: Text| ResolvedModel::Wait(id))
    } else if name == "send"@ {
        match target_and_text(arg, span, name) {
            Ok((id, data)) => Ok(ResolvedModel::Send { id, data }),
            Err(e) => Err(e),
        }
    } else if name == "cancel"@ {
        on_id(id_of(arg, span, name), |id: Text| ResolvedModel::Cancel(id))
    } else if name == "pause"@ {
        on_id(id_of(arg, span, name), |id: Text| ResolvedModel::Pause(id))
    } else if name == "resume"@ {
        on_id(id_of(arg, span, name), |id: Text| ResolvedModel::Resume(id))
    } else if name == "log"@ {
        Ok(
            ResolvedModel::Log(
                match arg {
                    ArgModel::IdRef(k, n) => Some(id_text(k, n)),
                    _ => None,
                },
            ),
        )
    } else if name == "jobs"@ {
        Ok(ResolvedModel::Jobs)
    } else if name == "crons"@ {
        Ok(ResolvedModel::Crons)
    } else if name == "scopes"@ {
        Ok(ResolvedModel::Scopes)
    } else if name == "env"@ {
        Ok(ResolvedModel::Env(optional_text_of(arg)))
    } else if name == "cd"@ {
        Ok(ResolvedModel::Cd(text_of(arg)))
    } else if name == "scope"@ {
        Ok(ResolvedModel::Scope(optional_text_of(arg)))
    } else if name == "help"@ {
        Ok(ResolvedModel::Help(optional_text_of(arg)))
    } else if name == "config"@ {
        Ok(ResolvedModel::Config(optional_text_of(arg)))
    } else if name == "clear"@ {
        Ok(ResolvedModel::Clear)
    } else if name == "quit"@ || name == "exit"@ {
        Ok(ResolvedModel::Quit)
    } else {
        Ok(ResolvedModel::Wrap(optional_text_of(arg)))
    }
}

/// What a tree means in a mode; of a script, the first error.
pub open spec fn resolved(ast: AstModel, mode: Mode) -> Result<ResolvedModel, ErrModel>
    decreases ast,
{
    match ast {
        AstModel::Script { items, .. } => match items_resolved(items, mode) {
            Ok(done) => Ok(ResolvedModel::Script { mode, items: done }),
            Err(e) => Err(e),
        },
        AstModel::BareInput { argument, span } => bare(argument, mode, span),
        AstModel::Command { name, mode_params, argument, span } => named(
            name,
            params_map(mode_params),
            argument,
            span,
        ),
    }
}

pub open spec fn items_resolved(items: Seq<ItemModel>, mode: Mode) -> Result<
    Seq<ResolvedItemModel>,
    ErrModel,
>
    decreases items,
{
    if items.len() == 0 {
        Ok(Seq::empty())
    } else {
        match items_resolved(items.drop_last(), mode) {
            Err(e) => Err(e),
            Ok(done) => match resolved(*items.last().statement, mode) {
                Err(e) => Err(e),
                Ok(c) => Ok(
                    done.push(
                        ResolvedItemModel { source: items.last().source, command: Box::new(c) },
                    ),
                ),
            },
        }
    }
}

// ── Laws ──

/// Bare input means what the command of its mode means: `:run` in job mode,
/// `:cron` in cron mode. Only a single `?` is another matter: it asks for help.
pub proof fn lemma_bare_input_is_the_command_of_its_mode(chain: ChainModel, mode: Mode, span: Span)
    requires
        !asks_for_help(ArgModel::Chain(chain)),
    ensures
        bare(ArgModel::Chain(chain), mode, span) == named(
            match mode {
                Mode::Job => "run"@,
                Mode::Cron => "cron"@,
            },
            Map::empty(),
            ArgModel::Chain(chain),
            span,
        ),
{
    reveal_strlit("run");
    reveal_strlit("cron");
    assert("run"@[0] == 'r' && "cron"@[0] == 'c');
}

/// The span of time of an interval or a delay is never zero.
pub proof fn lemma_scheduled_spans_are_positive(
    chain: ChainModel,
    params: Map<Text, ValueModel>,
    span: Span,
)
    ensures
        cron_of(chain, params, span) matches Ok(ResolvedModel::Cron { schedule, .. }) ==> match schedule {
            CronModel::Interval(d) => d.secs > 0 || d.millis > 0,
            CronModel::Delay(d) => d.secs > 0 || d.millis > 0,
            _ => true,
        },
{
}

/// A script resolves to its statements one by one, in their order, each with
/// its source.
pub proof fn lemma_script_resolved_in_order(items: Seq<ItemModel>, mode: Mode, i: int)
    requires
        0 <= i < items.len(),
    ensures
        items_resolved(items, mode) matches Ok(done) ==> done.len() == items.len()
            && done[i].source == items[i].source && resolved(*items[i].statement, mode)
            == Ok::<ResolvedModel, ErrModel>(*done[i].command),
    decreases items.len(),
{
    if items_resolved(items, mode) is Ok {
        let before = items.drop_last();
        if items.len() > 1 {
            let j = if i < items.len() - 1 {
                i
            } else {
                i - 1
            };
            lemma_script_resolved_in_order(before, mode, j);
            assert(before[j] == items[j]);
        } else {
            assert(items_resolved(before, mode) == Ok::<Seq<ResolvedItemModel>, ErrModel>(
                Seq::empty(),
            ));
        }
    }
}

/// A time on some days is one schedule, whichever of the two is written first;
/// a `do` behind it is taken with it.
pub proof fn lemma_time_and_days_in_either_order(time: Text, days: Text, rest: Seq<Text>, span: Span)
    ensures
        ({
            let n: int = if rest.len() > 0 && rest[0] == "do"@ {
                5
            } else {
                4
            };
            let r = Ok::<(ScheduleModel, int), ErrModel>(
                (ScheduleModel::At { time, days: Some(days) }, n),
            );
            &&& schedule_of(seq!["at"@, time, "on"@, days] + rest, span) == r
            &&& schedule_of(seq!["on"@, days, "at"@, time] + rest, span) == r
        }),
{
    let a = seq!["at"@, time, "on"@, days] + rest;
    let b = seq!["on"@, days, "at"@, time] + rest;
    lemma_schedule_words_differ();
    assert(a[0] == "at"@ && a[1] == time && a[2] == "on"@ && a[3] == days);
    assert(b[0] == "on"@ && b[1] == days && b[2] == "at"@ && b[3] == time);
    if rest.len() > 0 {
        assert(a[4] == rest[0] && b[4] == rest[0]);
    }
}

/// The words that begin a schedule, each with its own form behind it.
pub open spec fn schedule_keyword(w: Text) -> bool {
    ||| w == "every"@
    ||| w == "at"@
    ||| w == "on"@
    ||| w == "in"@
    ||| w == "cron"@
    ||| w == "daily"@
    ||| w == "hourly"@
    ||| w == "weekly"@
    ||| w == "monthly"@
}

proof fn lemma_schedule_words_differ()
    ensures
        "at"@ != "every"@,
        "on"@ != "every"@,
        "on"@ != "at"@,
        "do"@ != "on"@,
        "do"@ != "at"@,
{
    reveal_strlit("at");
    reveal_strlit("on");
    reveal_strlit("do");
    reveal_strlit("every");
    assert("at"@[0] == 'a' && "on"@[0] == 'o' && "do"@[0] == 'd' && "every"@[0] == 'e');
}

/// An optional `do` between a schedule that a keyword begins and the command is
/// taken with the schedule and changes nothing else.
pub proof fn lemma_do_is_swallowed(ws: Seq<Text>, span: Span)
    requires
        ws.len() > 0,
        schedule_keyword(ws[0]),
        forall|i: int| 0 <= i < ws.len() ==> #[trigger] ws[i] != "do"@,
        schedule_of(ws, span) is Ok,
    ensures
        ({
            let (s, n) = schedule_of(ws, span)->Ok_0;
            schedule_of(ws.take(n) + seq!["do"@] + ws.skip(n), span) == Ok::<
                (ScheduleModel, int),
                ErrModel,
            >((s, n + 1))
        }),
{
    lemma_schedule_words_differ();
    let (s, n) = schedule_of(ws, span)->Ok_0;
    let with = ws.take(n) + seq!["do"@] + ws.skip(n);
    assert(schedule_start(ws, span) == Ok::<(ScheduleModel, int), ErrModel>((s, n)));
    assert(1 <= n <= ws.len());
    assert(forall|i: int| 0 <= i < n ==> with[i] == ws[i]);
    assert(with[n] == "do"@);
    if n == 6 {
        assert(with.subrange(1, 6) =~= ws.subrange(1, 6));
    }
    assert(schedule_start(with, span) == Ok::<(ScheduleModel, int), ErrModel>((s, n)));
}

} // verus!
