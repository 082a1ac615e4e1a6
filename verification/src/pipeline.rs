//! Executable command structure: chains of jobs, each a pipeline of processes.

use vstd::prelude::*;

use crate::text;
use crate::text::Text;

verus! {

/// How one step of a serial chain follows the one before it.
#[derive(Debug, Clone, Copy, PartialEq, Eq, Structural)]
pub enum SerialOp {
    /// `->`: only after success.
    Then,
    /// `~>`: whatever the outcome.
    Always,
}

/// How the branches of a parallel group are joined.
#[derive(Debug, Clone, Copy, PartialEq, Eq, Structural)]
pub enum ParallelOp {
    /// `|||`: all branches.
    All,
    /// `|?|`: the first to finish.
    Race,
}

/// Which streams one process hands to the next.
#[derive(Debug, Clone, Copy, PartialEq, Eq, Structural)]
pub enum PipeOp {
    /// `|>`
    Stdout,
    /// `|&>`
    StdoutStderr,
    /// `|!>`
    StderrOnly,
}

/// One process of a pipeline.
#[derive(Debug, PartialEq, Eq)]
pub struct PipeSegment {
    pub command: Vec<String>,
    pub pipe_to_next: Option<PipeOp>,
}

/// Processes connected by pipes.
#[derive(Debug, PartialEq, Eq)]
pub struct Pipeline {
    pub segments: Vec<PipeSegment>,
}

/// A job: pipelines combined by `&&` and `||`.
#[derive(Debug, PartialEq, Eq)]
pub enum JobPlan {
    Pipeline(Pipeline),
    And { left: Box<JobPlan>, right: Box<JobPlan> },
    Or { left: Box<JobPlan>, right: Box<JobPlan> },
}

/// A chain of jobs.
#[allow(inconsistent_fields)]
#[derive(Debug, PartialEq, Eq)]
pub enum ChainNode {
    Leaf(JobPlan),
    Serial { op: SerialOp, left: Box<ChainNode>, right: Box<ChainNode> },
    Parallel { op: ParallelOp, left: Box<ChainNode>, right: Box<ChainNode> },
}

/// A process as its argument texts and its outgoing pipe.
pub struct SegModel {
    pub command: Seq<Text>,
    pub pipe_to_next: Option<PipeOp>,
}

/// A job as a tree over pipelines.
pub enum JobModel {
    Pipeline(Seq<SegModel>),
    And(Box<JobModel>, Box<JobModel>),
    Or(Box<JobModel>, Box<JobModel>),
}

/// A chain as a tree over jobs.
pub enum ChainModel {
    Leaf(JobModel),
    Serial(SerialOp, Box<ChainModel>, Box<ChainModel>),
    Parallel(ParallelOp, Box<ChainModel>, Box<ChainModel>),
}

impl View for PipeSegment {
    type V = SegModel;

    open spec fn view(&self) -> SegModel {
        SegModel { command: text::texts(self.command@), pipe_to_next: self.pipe_to_next }
    }
}

impl View for Pipeline {
    type V = Seq<SegModel>;

    open spec fn view(&self) -> Seq<SegModel> {
        self.segments@.map_values(|s: PipeSegment| s@)
    }
}

impl JobPlan {
    pub open spec fn model(self) -> JobModel
        decreases self,
    {
        match self {
            JobPlan::Pipeline(p) => JobModel::Pipeline(p@),
            JobPlan::And { left, right } => JobModel::And(
                Box::new(left.model()),
                Box::new(right.model()),
            ),
            JobPlan::Or { left, right } => JobModel::Or(
                Box::new(left.model()),
                Box::new(right.model()),
            ),
        }
    }
}

impl ChainNode {
    pub open spec fn model(self) -> ChainModel
        decreases self,
    {
        match self {
            ChainNode::Leaf(j) => ChainModel::Leaf(j.model()),
            ChainNode::Serial { op, left, right } => ChainModel::Serial(
                op,
                Box::new(left.model()),
                Box::new(right.model()),
            ),
            ChainNode::Parallel { op, left, right } => ChainModel::Parallel(
                op,
                Box::new(left.model()),
                Box::new(right.model()),
            ),
        }
    }
}

} // verus!
