//! Input modes of the shell.

use vstd::prelude::*;

verus! {

/// What bare input means: a job to run, or a schedule with a command.
#[derive(Debug, Clone, Copy, PartialEq, Eq, Structural)]
pub enum Mode {
    Job,
    Cron,
}

impl Default for Mode {
    fn default() -> (r: Mode)
        ensures
            r == Mode::Job,
    {
        Mode::Job
    }
}

impl Mode {
    /// The mode after `self` in the switching order.
    pub open spec fn next_mode(self) -> Mode {
        match self {
            Mode::Job => Mode::Cron,
            Mode::Cron => Mode::Job,
        }
    }

    /// The mode after `self` in the switching order.
    pub fn next(self) -> (r: Mode)
        ensures
            r == self.next_mode(),
    {
        match self {
            Mode::Job => Mode::Cron,
            Mode::Cron => Mode::Job,
        }
    }

    /// What the prompt shows for a mode.
    pub open spec fn indicator_text(self) -> Seq<char> {
        match self {
            Mode::Job => "JOB ⚡"@,
            Mode::Cron => "CRON ⏰"@,
        }
    }

    /// What the prompt shows for a mode.
    pub fn indicator(self) -> (r: &'static str)
        ensures
            r@ == self.indicator_text(),
    {
        match self {
            Mode::Job => "JOB ⚡",
            Mode::Cron => "CRON ⏰",
        }
    }

    /// The name of a mode in titles and records.
    pub open spec fn label_text(self) -> Seq<char> {
        match self {
            Mode::Job => "JOB"@,
            Mode::Cron => "CRON"@,
        }
    }

    /// The name of a mode in titles and records.
    pub fn label(self) -> (r: &'static str)
        ensures
            r@ == self.label_text(),
    {
        match self {
            Mode::Job => "JOB",
            Mode::Cron => "CRON",
        }
    }
}

/// Switching twice leads back to the mode.
pub proof fn lemma_switching_twice(mode: Mode)
    ensures
        mode.next_mode().next_mode() == mode,
{
}

} // verus!
