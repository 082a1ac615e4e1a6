//! Unresolved syntax trees.

use vstd::prelude::*;

use super::token::{IdKind, Span, Value, ValueModel};
use crate::duration::Duration;
use crate::pipeline::{ChainModel, JobModel, ParallelOp, PipeOp, SegModel, SerialOp};
use crate::text;
use crate::text::Text;

verus! {

/// A parsed input.
#[derive(Debug, PartialEq)]
pub enum Ast {
    /// Several statements.
    Script { items: Vec<ScriptItemAst>, span: Span },
    /// Input without a command name.
    BareInput { argument: Argument, span: Span },
    /// `:name(params) argument`
    Command { name: String, mode_params: Vec<(String, Value)>, argument: Argument, span: Span },
}

/// One statement of a script, with the text it was parsed from.
#[derive(Debug, PartialEq)]
pub struct ScriptItemAst {
    pub source: String,
    pub span: Span,
    pub statement: Box<Ast>,
}

/// What stands behind a command name.
#[derive(Debug, PartialEq)]
pub enum Argument {
    Chain(ChainNode),
    IdRef(IdKind, u32),
    TailRef(IdKind, u32, Option<usize>),
    Text(String),
    Empty,
}

/// A chain of jobs.
#[allow(inconsistent_fields)]
#[derive(Debug, PartialEq)]
pub enum ChainNode {
    Leaf(JobExpr),
    Serial { op: SerialOp, left: Box<ChainNode>, right: Box<ChainNode> },
    Parallel { op: ParallelOp, left: Box<ChainNode>, right: Box<ChainNode> },
}

/// Pipelines combined by `&&` and `||`.
#[derive(Debug, PartialEq)]
pub enum JobExpr {
    Pipeline(Pipeline),
    And { left: Box<JobExpr>, right: Box<JobExpr> },
    Or { left: Box<JobExpr>, right: Box<JobExpr> },
}

/// Processes connected by pipes.
#[derive(Debug, PartialEq)]
pub struct Pipeline {
    pub segments: Vec<PipeSegment>,
}

/// One process of a pipeline.
#[derive(Debug, PartialEq)]
pub struct PipeSegment {
    pub command: Vec<String>,
    pub pipe_to_next: Option<PipeOp>,
}

/// A schedule as it was written.
#[derive(Debug, PartialEq)]
pub enum CronScheduleAst {
    Every(Duration),
    At { time: String, days: Option<String> },
    In(Duration),
    Crontab(String),
    Preset(String),
}

/// An argument over character sequences.
pub enum ArgModel {
    Chain(ChainModel),
    IdRef(IdKind, u32),
    TailRef(IdKind, u32, Option<usize>),
    Text(Text),
    Empty,
}

/// A parsed input over character sequences.
pub enum AstModel {
    Script { items: Seq<ItemModel>, span: Span },
    BareInput { argument: ArgModel, span: Span },
    Command { name: Text, mode_params: Seq<(Text, ValueModel)>, argument: ArgModel, span: Span },
}

/// One statement of a script over character sequences.
pub struct ItemModel {
    pub source: Text,
    pub span: Span,
    pub statement: Box<AstModel>,
}

/// A schedule over character sequences.
pub enum ScheduleModel {
    Every(Duration),
    At { time: Text, days: Option<Text> },
    In(Duration),
    Crontab(Text),
    Preset(Text),
}

impl View for PipeSegment {
    type V = SegModel;

    open spec fn view(&self) -> SegModel {
        SegModel { command: text::texts(self.command@), pipe_to_next: self.pipe_to_next }
    }
}

/// The models of a sequence of processes.
pub open spec fn seg_models(v: Seq<PipeSegment>) -> Seq<SegModel> {
    v.map_values(|s: PipeSegment| s@)
}

impl JobExpr {
    pub open spec fn model(self) -> JobModel
        decreases self,
    {
        match self {
            JobExpr::Pipeline(p) => JobModel::Pipeline(seg_models(p.segments@)),
            JobExpr::And { left, right } => JobModel::And(
                Box::new(left.model()),
                Box::new(right.model()),
            ),
            JobExpr::Or { left, right } => JobModel::Or(
                Box::new(left.model()),
                Box::new(right.model()),
            ),
        }
    }
}

impl ChainNode {
    pub open spec fn model(self) -> ChainModel
        decreases self,
    {
        match self {
            ChainNode::Leaf(j) => ChainModel::Leaf(j.model()),
            ChainNode::Serial { op, left, right } => ChainModel::Serial(
                op,
                Box::new(left.model()),
                Box::new(right.model()),
            ),
            ChainNode::Parallel { op, left, right } => ChainModel::Parallel(
                op,
                Box::new(left.model()),
                Box::new(right.model()),
            ),
        }
    }
}

impl View for Argument {
    type V = ArgModel;

    open spec fn view(&self) -> ArgModel {
        match *self {
            Argument::Chain(c) => ArgModel::Chain(c.model()),
            Argument::IdRef(k, n) => ArgModel::IdRef(k, n),
            Argument::TailRef(k, n, b) => ArgModel::TailRef(k, n, b),
            Argument::Text(t) => ArgModel::Text(t@),
            Argument::Empty => ArgModel::Empty,
        }
    }
}

/// The models of a sequence of parameters.
pub open spec fn param_models(v: Seq<(String, Value)>) -> Seq<(Text, ValueModel)> {
    v.map_values(|p: (String, Value)| (p.0@, p.1@))
}

impl Ast {
    pub open spec fn model(self) -> AstModel
        decreases self,
    {
        match self {
            Ast::Script { items, span } => AstModel::Script {
                items: item_models(items@),
                span,
            },
            Ast::BareInput { argument, span } => AstModel::BareInput { argument: argument@, span },
            Ast::Command { name, mode_params, argument, span } => AstModel::Command {
                name: name@,
                mode_params: param_models(mode_params@),
                argument: argument@,
                span,
            },
        }
    }
}

impl ScriptItemAst {
    pub open spec fn model(self) -> ItemModel
        decreases self,
    {
        ItemModel {
            source: self.source@,
            span: self.span,
            statement: Box::new(self.statement.model()),
        }
    }
}

/// The models of a sequence of statements.
pub open spec fn item_models(v: Seq<ScriptItemAst>) -> Seq<ItemModel>
    decreases v,
{
    if v.len() == 0 {
        Seq::empty()
    } else {
        item_models(v.drop_last()).push(v.last().model())
    }
}

impl View for CronScheduleAst {
    type V = ScheduleModel;

    open spec fn view(&self) -> ScheduleModel {
        match *self {
            CronScheduleAst::Every(d) => ScheduleModel::Every(d),
            CronScheduleAst::At { time, days } => ScheduleModel::At {
                time: time@,
                days: match days {
                    Some(d) => Some(d@),
                    None => None,
                },
            },
            CronScheduleAst::In(d) => ScheduleModel::In(d),
            CronScheduleAst::Crontab(s) => ScheduleModel::Crontab(s@),
            CronScheduleAst::Preset(s) => ScheduleModel::Preset(s@),
        }
    }
}

} // verus!
