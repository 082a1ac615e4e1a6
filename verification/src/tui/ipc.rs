//! What the daemon and the front end tell each other.

use vstd::prelude::*;

use crate::cron::CronStatus;
use crate::job::JobStatus;
use crate::mode::Mode;
use crate::text;
use crate::text::Text;

verus! {

/// An output stream of a job.
#[derive(Debug, Clone, Copy, PartialEq, Eq, Structural)]
pub enum Stream {
    Stdout,
    Stderr,
}

/// How a job is best opened.
#[derive(Debug, Clone, Copy, PartialEq, Eq, Structural)]
pub enum JobOpenHint {
    Stream,
    Fg,
}

#[derive(Debug)]
pub struct JobInfo {
    pub id: String,
    pub status: JobStatus,
    pub pipeline: String,
    pub exit_code: Option<i32>,
    pub start_scope: Option<String>,
    pub end_scope: Option<String>,
    pub open_hint: JobOpenHint,
    pub chain_id: Option<String>,
    pub chain_index: Option<usize>,
    pub chain_total: Option<usize>,
    pub pending_reason: Option<String>,
}

#[derive(Debug)]
pub struct CronInfo {
    pub id: String,
    pub schedule: String,
    pub command: String,
    pub status: CronStatus,
}

#[derive(Debug)]
pub struct ChainJobInfo {
    pub index: usize,
    pub pipeline: String,
    pub status: JobStatus,
    pub job_id: Option<String>,
    pub start_scope: Option<String>,
    pub end_scope: Option<String>,
    pub open_hint: Option<JobOpenHint>,
}

#[derive(Debug)]
pub struct ChainInfo {
    pub id: String,
    pub pipeline: String,
    pub total_jobs: usize,
    pub jobs: Vec<ChainJobInfo>,
}

/// One command of a script and what became of it.
#[derive(Debug)]
pub struct ScriptItemInfo {
    pub index: usize,
    pub source: String,
    pub result: ScriptItemResult,
}

#[derive(Debug)]
pub enum ScriptItemResult {
    Job { job_id: String, start_scope: Option<String>, open_hint: JobOpenHint },
    Chain { chain_id: String, job_ids: Vec<String>, chain: ChainInfo },
    Cron { cron_id: String },
    Message { text: String },
}

/// Where a script was stopped, and why.
#[derive(Debug)]
pub struct ScriptSubmitError {
    pub index: usize,
    pub source: String,
    pub code: String,
    pub message: String,
}

#[derive(Debug, Clone, Copy, PartialEq, Eq, Structural)]
pub enum ScriptRunStatus {
    Submitted,
    PartialError,
    Done,
    Failed,
}

/// What a request led to.
#[derive(Debug)]
#[allow(inconsistent_fields)]
pub enum OkPayload {
    Ack,
    ScriptCreated {
        script_id: String,
        items: Vec<ScriptItemInfo>,
        submit_error: Option<ScriptSubmitError>,
    },
    JobCreated {
        job_id: String,
        start_scope: Option<String>,
        open_hint: JobOpenHint,
        chain_id: Option<String>,
        chain_index: Option<usize>,
        chain_total: Option<usize>,
    },
    ChainCreated { chain_id: String, job_ids: Vec<String>, chain: ChainInfo },
    FgAttached { id: String },
    CronAdded { cron_id: String },
    ScopeCreated { hash: String, label: Option<String>, summary: String },
    JobList(Vec<JobInfo>),
    CronList(Vec<CronInfo>),
    EvalText { text: String },
    Pong,
    Output { id: String, data: String, truncated: bool },
    /// Anything else, as text.
    Other(String),
}

#[derive(Debug)]
pub enum ResponsePayload {
    Success(OkPayload),
    Failure { code: String, message: String },
}

/// What the daemon tells without being asked.
#[derive(Debug)]
#[allow(inconsistent_fields)]
pub enum EventPayload {
    OutputChunk { id: String, stream: Stream, data: String },
    OutputEof { id: String },
    JobCreated {
        job_id: String,
        pipeline: String,
        start_scope: Option<String>,
        open_hint: JobOpenHint,
        chain_id: Option<String>,
        chain_index: Option<usize>,
        chain_total: Option<usize>,
    },
    JobStateChanged {
        job_id: String,
        old_state: JobStatus,
        new_state: JobStatus,
        end_scope: Option<String>,
        chain_id: Option<String>,
        chain_index: Option<usize>,
    },
    JobRemoved { job_id: String },
    ChainStarted { chain: ChainInfo },
    ChainProgress { chain: ChainInfo },
    ChainFinished { chain_id: String, success: bool },
    FgOutput { data: Vec<u8> },
    FgExited { id: String, reason: String },
    CronTriggered { cron_id: String, job_id: String },
    CronRemoved { cron_id: String },
    ShuttingDown { reason: String },
    /// Anything else.
    Other,
}

/// What the front end asks for.
#[derive(Debug)]
#[allow(inconsistent_fields)]
pub enum RequestPayload {
    Eval { input: String, mode: Mode },
    Subscribe { channels: Vec<String> },
    Unsubscribe { channels: Vec<String> },
    FgDetach,
    FgInput { data: Vec<u8> },
    FgResize { cols: u16, rows: u16 },
}

/// A request over character and byte sequences.
#[allow(inconsistent_fields)]
pub enum RequestModel {
    Eval { input: Text, mode: Mode },
    Subscribe { channels: Seq<Text> },
    Unsubscribe { channels: Seq<Text> },
    FgDetach,
    FgInput { data: Seq<u8> },
    FgResize { cols: u16, rows: u16 },
}

impl View for RequestPayload {
    type V = RequestModel;

    open spec fn view(&self) -> RequestModel {
        match self {
            RequestPayload::Eval { input, mode } => RequestModel::Eval {
                input: input@,
                mode: *mode,
            },
            RequestPayload::Subscribe { channels } => RequestModel::Subscribe {
                channels: text::texts(channels@),
            },
            RequestPayload::Unsubscribe { channels } => RequestModel::Unsubscribe {
                channels: text::texts(channels@),
            },
            RequestPayload::FgDetach => RequestModel::FgDetach,
            RequestPayload::FgInput { data } => RequestModel::FgInput { data: data@ },
            RequestPayload::FgResize { cols, rows } => RequestModel::FgResize {
                cols: *cols,
                rows: *rows,
            },
        }
    }
}

// ── Outgoing requests ──

/// Takes requests for the daemon, each under a number of its own.
#[derive(Debug)]
pub struct WriterHandle {
    next_id: u32,
    outgoing: Vec<(u32, RequestPayload)>,
    refusal: Option<String>,
}

/// The requests that wait to be sent, over character sequences.
pub struct WriterModel {
    pub next_id: u32,
    pub outgoing: Seq<(u32, RequestModel)>,
    /// Why requests are refused, if they are.
    pub refusal: Option<Text>,
}

pub open spec fn outgoing_models(v: Seq<(u32, RequestPayload)>) -> Seq<(u32, RequestModel)> {
    v.map_values(|p: (u32, RequestPayload)| (p.0, p.1@))
}

impl View for WriterHandle {
    type V = WriterModel;

    closed spec fn view(&self) -> WriterModel {
        WriterModel {
            next_id: self.next_id,
            outgoing: outgoing_models(self.outgoing@),
            refusal: text::opt_text(self.refusal),
        }
    }
}

pub open spec fn next_request_id(id: u32) -> u32 {
    if id < u32::MAX {
        (id + 1) as u32
    } else {
        0
    }
}

impl WriterModel {
    /// With one more request, unless requests are refused.
    pub open spec fn with_request(self, payload: RequestModel) -> WriterModel {
        if self.refusal is Some {
            self
        } else {
            WriterModel {
                next_id: next_request_id(self.next_id),
                outgoing: self.outgoing.push((self.next_id, payload)),
                ..self
            }
        }
    }
}

impl WriterHandle {
    /// A writer whose first request has this number.
    pub fn new(first_id: u32) -> (r: WriterHandle)
        ensures
            r@ == (WriterModel { next_id: first_id, outgoing: Seq::empty(), refusal: None }),
    {
        let r = WriterHandle { next_id: first_id, outgoing: Vec::new(), refusal: None };
        assert(outgoing_models(r.outgoing@) =~= Seq::<(u32, RequestModel)>::empty());
        r
    }

    /// Refuses all further requests.
    pub fn refuse(&mut self, reason: String)
        ensures
            final(self)@ == (WriterModel { refusal: Some(reason@), ..old(self)@ }),
    {
        self.refusal = Some(reason);
    }

    /// Takes a request and gives its number, or the reason why requests are
    /// refused.
    pub fn try_send(&mut self, payload: RequestPayload) -> (r: Result<u32, String>)
        ensures
            final(self)@ == old(self)@.with_request(payload@),
            match r {
                Ok(id) => old(self)@.refusal is None && id == old(self)@.next_id,
                Err(e) => old(self)@.refusal == Some(e@),
            },
    {
        if let Some(reason) = &self.refusal {
            return Err(reason.clone());
        }
        let id: u32 = self.next_id;
        proof {
            assert(outgoing_models(self.outgoing@.push((id, payload))) =~= outgoing_models(
                self.outgoing@,
            ).push((id, payload@)));
        }
        self.outgoing.push((id, payload));
        self.next_id = if id < u32::MAX {
            id + 1
        } else {
            0
        };
        Ok(id)
    }

    /// Hands out the requests that wait, oldest first.
    pub fn take_outgoing(&mut self) -> (r: Vec<(u32, RequestPayload)>)
        ensures
            outgoing_models(r@) == old(self)@.outgoing,
            final(self)@ == (WriterModel { outgoing: Seq::empty(), ..old(self)@ }),
    {
        let mut out: Vec<(u32, RequestPayload)> = Vec::new();
        std::mem::swap(&mut out, &mut self.outgoing);
        assert(outgoing_models(self.outgoing@) =~= Seq::<(u32, RequestModel)>::empty());
        out
    }
}

} // verus!
