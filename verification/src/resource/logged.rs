//! Backends and runners that note, as ghost state, what they were asked and what
//! they answered.

use vstd::prelude::*;

use super::cli::{
    response_result, units_result, CliCommand, CliRunner, ReserveResponse, ResponseModel,
};
use super::nvidia::{sample_result, GpuSample, NvidiaBackend};
use super::types::{Need, ResourceQuantity, ResourceUnit, UnitModel};
use crate::text::Text;

verus! {

// ── Devices ──

/// One look at the clock or at the driver, and what it showed.
pub enum Sighting {
    Clock(u64),
    Devices(Result<Seq<GpuSample>, Text>),
}

/// A backend with all that was looked at through it.
pub struct LoggedBackend<B: NvidiaBackend> {
    backend: B,
    seen: Ghost<Seq<Sighting>>,
}

impl<B: NvidiaBackend> LoggedBackend<B> {
    /// All that was looked at so far.
    pub closed spec fn seen(self) -> Seq<Sighting> {
        self.seen@
    }

    pub fn new(backend: B) -> (r: LoggedBackend<B>)
        ensures
            r.seen() == Seq::<Sighting>::empty(),
    {
        LoggedBackend { backend, seen: Ghost(Seq::empty()) }
    }

    /// The devices as they are now.
    pub fn probe(&mut self) -> (r: Result<Vec<GpuSample>, String>)
        ensures
            final(self).seen() == old(self).seen().push(Sighting::Devices(sample_result(r))),
    {
        let r = self.backend.probe();
        proof {
            self.seen@ = self.seen@.push(Sighting::Devices(sample_result(r)));
        }
        r
    }

    /// Milliseconds on a clock that does not go backwards.
    pub fn now_millis(&mut self) -> (r: u64)
        ensures
            final(self).seen() == old(self).seen().push(Sighting::Clock(r)),
    {
        let r = self.backend.now_millis();
        proof {
            self.seen@ = self.seen@.push(Sighting::Clock(r));
        }
        r
    }
}

// ── Commands ──

/// One run of a command: what it was asked, and what it answered.
pub enum CliCall {
    Probe { command: Seq<Text>, units: Result<Seq<UnitModel>, Text> },
    Reserve {
        command: Seq<Text>,
        job_id: Text,
        needs: Seq<(Text, ResourceQuantity)>,
        answer: Result<ResponseModel, Text>,
    },
    Release { command: Seq<Text>, grant_id: Text },
}

/// A runner with all the commands that it ran.
pub struct LoggedRunner<R: CliRunner> {
    runner: R,
    runs: Ghost<Seq<CliCall>>,
}

impl<R: CliRunner> LoggedRunner<R> {
    /// All runs so far.
    pub closed spec fn runs(self) -> Seq<CliCall> {
        self.runs@
    }

    pub fn new(runner: R) -> (r: LoggedRunner<R>)
        ensures
            r.runs() == Seq::<CliCall>::empty(),
    {
        LoggedRunner { runner, runs: Ghost(Seq::empty()) }
    }

    pub fn probe(&mut self, command: &CliCommand) -> (r: Result<Vec<ResourceUnit>, String>)
        ensures
            final(self).runs() == old(self).runs().push(
                CliCall::Probe { command: command@, units: units_result(r) },
            ),
    {
        let r = self.runner.probe(command);
        proof {
            self.runs@ = self.runs@.push(
                CliCall::Probe { command: command@, units: units_result(r) },
            );
        }
        r
    }

    pub fn reserve(&mut self, command: &CliCommand, job_id: &str, needs: &Need) -> (r: Result<
        ReserveResponse,
        String,
    >)
        ensures
            final(self).runs() == old(self).runs().push(
                CliCall::Reserve {
                    command: command@,
                    job_id: job_id@,
                    needs: needs.entries(),
                    answer: response_result(r),
                },
            ),
    {
        let r = self.runner.reserve(command, job_id, needs);
        proof {
            self.runs@ = self.runs@.push(
                CliCall::Reserve {
                    command: command@,
                    job_id: job_id@,
                    needs: needs.entries(),
                    answer: response_result(r),
                },
            );
        }
        r
    }

    pub fn release(&mut self, command: &CliCommand, grant_id: &str)
        ensures
            final(self).runs() == old(self).runs().push(
                CliCall::Release { command: command@, grant_id: grant_id@ },
            ),
    {
        self.runner.release(command, grant_id);
        proof {
            self.runs@ = self.runs@.push(
                CliCall::Release { command: command@, grant_id: grant_id@ },
            );
        }
    }
}

} // verus!
