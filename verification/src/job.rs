//! Job states.

use vstd::prelude::*;

verus! {

/// Why a job was cancelled.
#[derive(Debug, Clone, Copy, PartialEq, Eq, Structural)]
pub enum CancelReason {
    User,
}

/// How far a job has come.
#[derive(Debug, Clone, Copy, PartialEq, Eq, Structural)]
pub enum JobStatus {
    Pending,
    Running,
    Done,
    Failed,
    Killed,
    Cancelled(CancelReason),
}

/// States in which nothing more happens to a job.
pub open spec fn terminal_status(s: JobStatus) -> bool {
    match s {
        JobStatus::Pending => false,
        JobStatus::Running => false,
        JobStatus::Done => true,
        JobStatus::Failed => true,
        JobStatus::Killed => true,
        JobStatus::Cancelled(_) => true,
    }
}

impl JobStatus {
    pub fn is_terminal(self) -> (r: bool)
        ensures
            r == terminal_status(self),
    {
        match self {
            JobStatus::Pending => false,
            JobStatus::Running => false,
            JobStatus::Done => true,
            JobStatus::Failed => true,
            JobStatus::Killed => true,
            JobStatus::Cancelled(_) => true,
        }
    }
}

} // verus!
