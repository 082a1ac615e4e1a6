//! Provider that delegates to commands speaking JSON over stdio.
//!
//! Each provider owns a configured set of keys. The runner starts the commands
//! and decodes their output; what an answer means is decided here.

use vstd::prelude::*;
use vstd::string::*;

use super::logged::{CliCall, LoggedRunner};
use super::provider::{grant_result, recorded, Provider, ProviderCall, ReserveRequest};
use super::types::{
    bare_reject, unit_models, Grant, GrantModel, JobId, Need, ProviderId, Reject, RejectModel,
    ReservationId, ResourceQuantity, ResourceUnit, Snapshot, UnitModel,
};
use crate::text;
use crate::text::Text;
use crate::textmap::TextMap;

verus! {

/// A command with its arguments.
#[derive(Debug)]
pub struct CliCommand {
    argv: Vec<String>,
}

impl View for CliCommand {
    type V = Seq<Text>;

    closed spec fn view(&self) -> Seq<Text> {
        text::texts(self.argv@)
    }
}

impl CliCommand {
    pub fn new(argv: Vec<String>) -> (r: CliCommand)
        ensures
            r@ == text::texts(argv@),
    {
        CliCommand { argv }
    }

    fn copy(&self) -> (r: CliCommand)
        ensures
            r@ == self@,
    {
        CliCommand { argv: text::clone_strings(&self.argv) }
    }

    /// The command as it is shown in messages.
    pub fn display(&self) -> (r: String)
        ensures
            r@ == text::join(self@, " "@),
    {
        text::join_strings(&self.argv, " ")
    }

    /// The program and its arguments.
    pub fn split_program(&self) -> (r: Result<(String, Vec<String>), String>)
        ensures
            match r {
                Ok((program, args)) => self@.len() > 0 && program@ == self@[0] && text::texts(args@)
                    == self@.skip(1),
                Err(e) => self@.len() == 0 && e@ == "empty resource provider command"@,
            },
    {
        if self.argv.len() == 0 {
            return Err("empty resource provider command".to_owned());
        }
        let mut args = text::clone_strings(&self.argv);
        let ghost all = args@;
        let program = args.remove(0);
        proof {
            assert(text::texts(all)[0] == program@);
            assert(text::texts(args@) =~= text::texts(all).skip(1));
        }
        Ok((program, args))
    }
}

/// How a provider is configured.
#[derive(Debug)]
pub struct CliResourceProviderConfig {
    pub keys: Vec<String>,
    pub probe: Vec<String>,
    pub reserve: Vec<String>,
    pub release: Vec<String>,
    pub timeout_ms: u64,
}

/// The answer to a reservation request.
#[derive(Debug)]
pub struct ReserveResponse {
    pub ok: bool,
    pub grant_id: Option<String>,
    pub reason: Option<String>,
    pub env: TextMap<String>,
    pub info: TextMap<ResourceQuantity>,
}

/// An answer over character sequences.
pub struct ResponseModel {
    pub ok: bool,
    pub grant_id: Option<Text>,
    pub reason: Option<Text>,
    pub env: Map<Text, Text>,
    pub info: Map<Text, ResourceQuantity>,
}

impl View for ReserveResponse {
    type V = ResponseModel;

    open spec fn view(&self) -> ResponseModel {
        ResponseModel {
            ok: self.ok,
            grant_id: text::opt_text(self.grant_id),
            reason: text::opt_text(self.reason),
            env: self.env.text_map(),
            info: self.info@,
        }
    }
}

/// Runs the commands of a provider.
pub trait CliRunner: Sized {
    fn probe(&mut self, command: &CliCommand) -> Result<Vec<ResourceUnit>, String>;

    fn reserve(&mut self, command: &CliCommand, job_id: &str, needs: &Need) -> Result<
        ReserveResponse,
        String,
    >;

    fn release(&mut self, command: &CliCommand, grant_id: &str);
}

/// What the reserve command is asked: on its command line and its input.
#[derive(Debug)]
pub struct ReserveCall {
    pub command: CliCommand,
    pub job_id: String,
    pub needs: Need,
}

/// What the release command is asked.
#[derive(Debug)]
pub struct ReleaseCall {
    pub command: CliCommand,
    pub grant_id: String,
}

pub struct CliProvider<R: CliRunner> {
    id: ProviderId,
    keys: Vec<String>,
    probe: CliCommand,
    reserve: CliCommand,
    release: CliCommand,
    timeout_ms: u64,
    runner: LoggedRunner<R>,
    calls: Ghost<Seq<ProviderCall>>,
}

/// What an answer comes to.
pub open spec fn reserve_result(
    id: Text,
    job_id: JobId,
    response: Result<ResponseModel, Text>,
) -> Result<GrantModel, RejectModel> {
    match response {
        Err(error) => Err(
            bare_reject("CLI provider "@ + id + " reserve failed: "@ + error),
        ),
        Ok(answer) => if !answer.ok {
            Err(
                bare_reject(
                    match answer.reason {
                        Some(reason) => reason,
                        None => "CLI provider "@ + id + " rejected reservation"@,
                    },
                ),
            )
        } else {
            match answer.grant_id {
                None => Err(
                    bare_reject("CLI provider "@ + id + " returned ok=true without grant_id"@),
                ),
                Some(grant_id) => Ok(
                    GrantModel {
                        id: grant_id,
                        job_id,
                        provider_id: id,
                        env: answer.env,
                        info: answer.info,
                    },
                ),
            }
        },
    }
}

pub open spec fn response_result(r: Result<ReserveResponse, String>) -> Result<
    ResponseModel,
    Text,
> {
    match r {
        Ok(a) => Ok(a@),
        Err(e) => Err(e@),
    }
}

pub open spec fn units_result(r: Result<Vec<ResourceUnit>, String>) -> Result<
    Seq<UnitModel>,
    Text,
> {
    match r {
        Ok(v) => Ok(unit_models(v@)),
        Err(e) => Err(e@),
    }
}

/// The units that a snapshot shows: none if the command failed.
pub open spec fn shown_units(r: Result<Seq<UnitModel>, Text>) -> Seq<UnitModel> {
    match r {
        Ok(units) => units,
        Err(_) => Seq::empty(),
    }
}

/// What is shown of the bytes that a command wrote.
pub open spec fn output_suffix(label: Text, bytes: Seq<u8>) -> Text {
    let shown = text::trim(text::lossy_text(bytes));
    if shown.len() == 0 {
        Seq::empty()
    } else {
        "\n"@ + label + ": "@ + shown
    }
}

/// What is shown of decoded output.
pub open spec fn text_suffix(label: Text, shown: Text) -> Text {
    if text::trim(shown).len() == 0 {
        Seq::empty()
    } else {
        "\n"@ + label + ": "@ + text::trim(shown)
    }
}

/// What is shown of decoded output.
pub fn format_text_suffix(label: &str, shown: &str) -> (r: String)
    ensures
        r@ == text_suffix(label@, shown@),
{
    let trimmed = text::str_trim(shown);
    if trimmed.len() == 0 {
        let r = "".to_owned();
        proof {
            reveal_strlit("");
            assert(r@ =~= Seq::<char>::empty());
        }
        r
    } else {
        text::concat4("\n", label, ": ", text::all_string(&trimmed).as_str())
    }
}

/// What is shown of the bytes that a command wrote.
pub fn format_output_suffix(label: &str, bytes: &[u8]) -> (r: String)
    ensures
        r@ == output_suffix(label@, bytes@),
{
    let decoded = text::lossy_string(bytes);
    format_text_suffix(label, decoded.as_str())
}

/// What to do about a command that was started.
#[derive(Debug, Clone, Copy, PartialEq, Eq, Structural)]
pub enum WaitStep {
    /// It has exited: collect its output.
    Collect,
    /// It has run too long: kill it.
    Kill,
    /// Look again in this many milliseconds.
    Sleep(u64),
}

/// The next step while a command runs.
pub fn wait_step(exited: bool, elapsed_ms: u64, timeout_ms: u64) -> (r: WaitStep)
    ensures
        r == if exited {
            WaitStep::Collect
        } else if elapsed_ms >= timeout_ms {
            WaitStep::Kill
        } else {
            WaitStep::Sleep(10)
        },
{
    if exited {
        WaitStep::Collect
    } else if elapsed_ms >= timeout_ms {
        WaitStep::Kill
    } else {
        WaitStep::Sleep(10)
    }
}

/// The error of a command that ran too long.
pub fn timeout_error(command: &CliCommand, timeout_ms: u64) -> (r: String)
    ensures
        r@ == "`"@ + text::join(command@, " "@) + "` timed out after "@ + text::decimal(timeout_ms as nat)
            + "ms"@,
{
    text::concat5(
        "`",
        command.display().as_str(),
        "` timed out after ",
        text::decimal_u64(timeout_ms).as_str(),
        "ms",
    )
}

/// The error of a command that exited with a failure.
pub fn exit_error(command: &CliCommand, status: &str, stderr: &[u8], stdout: &[u8]) -> (r: String)
    ensures
        r@ == "`"@ + text::join(command@, " "@) + "` exited with status "@ + status@ + output_suffix(
            "stderr"@,
            stderr@,
        ) + output_suffix("stdout"@, stdout@),
{
    let mut r = text::concat4("`", command.display().as_str(), "` exited with status ", status);
    r.append(format_output_suffix("stderr", stderr).as_str());
    r.append(format_output_suffix("stdout", stdout).as_str());
    r
}

impl<R: CliRunner> CliProvider<R> {
    pub closed spec fn spec_timeout(self) -> u64 {
        self.timeout_ms
    }

    /// The commands for probe, reserve and release.
    pub closed spec fn spec_commands(self) -> (Seq<Text>, Seq<Text>, Seq<Text>) {
        (self.probe@, self.reserve@, self.release@)
    }

    /// The commands that were run so far.
    pub closed spec fn spec_runs(self) -> Seq<CliCall> {
        self.runner.runs()
    }

    pub fn from_config(id: &str, config: &CliResourceProviderConfig, runner: R) -> (r: CliProvider<
        R,
    >)
        ensures
            r.wf(),
            r.spec_id() == id@,
            r.spec_keys() == text::texts(config.keys@),
            r.spec_commands() == (
                text::texts(config.probe@),
                text::texts(config.reserve@),
                text::texts(config.release@),
            ),
            r.spec_timeout() == config.timeout_ms,
            r.spec_runs() == Seq::<CliCall>::empty(),
            r.calls() == Seq::<ProviderCall>::empty(),
    {
        CliProvider {
            id: ProviderId::new(id),
            keys: text::clone_strings(&config.keys),
            probe: CliCommand::new(text::clone_strings(&config.probe)),
            reserve: CliCommand::new(text::clone_strings(&config.reserve)),
            release: CliCommand::new(text::clone_strings(&config.release)),
            timeout_ms: config.timeout_ms,
            runner: LoggedRunner::new(runner),
            calls: Ghost(Seq::empty()),
        }
    }

    /// How long a command may run.
    pub fn timeout_ms(&self) -> (r: u64)
        ensures
            r == self.spec_timeout(),
    {
        self.timeout_ms
    }

    /// The question that a request comes to.
    pub fn reserve_call(&self, req: &ReserveRequest) -> (r: ReserveCall)
        ensures
            r.command@ == self.spec_commands().1,
            r.job_id@ == super::types::job_text(req.job_id),
            r.needs@ == req.need@,
            r.needs.spec_keys() == req.need.spec_keys(),
            r.needs.entries() == req.need.entries(),
    {
        ReserveCall {
            command: self.reserve.copy(),
            job_id: req.job_id.text(),
            needs: req.need.clone(),
        }
    }

    /// The question that giving back a grant comes to.
    pub fn release_call(&self, grant_id: &ReservationId) -> (r: ReleaseCall)
        ensures
            r.command@ == self.spec_commands().2,
            r.grant_id@ == grant_id@,
    {
        ReleaseCall { command: self.release.copy(), grant_id: grant_id.as_str().to_owned() }
    }

    /// The command that is run for a probe.
    pub fn probe_command(&self) -> (r: CliCommand)
        ensures
            r@ == self.spec_commands().0,
    {
        self.probe.copy()
    }

    /// Turns an answer into a grant or a rejection.
    pub fn reserve_outcome(
        &self,
        job_id: JobId,
        response: Result<ReserveResponse, String>,
    ) -> (r: Result<Grant, Reject>)
        ensures
            match r {
                Ok(g) => reserve_result(self.spec_id(), job_id, response_result(response)) == Ok::<
                    GrantModel,
                    RejectModel,
                >(g@),
                Err(e) => reserve_result(self.spec_id(), job_id, response_result(response)) == Err::<
                    GrantModel,
                    RejectModel,
                >(e@),
            },
    {
        match response {
            Err(error) => Err(
                Reject::new(
                    text::concat4(
                        "CLI provider ",
                        self.id.as_str(),
                        " reserve failed: ",
                        error.as_str(),
                    ),
                ),
            ),
            Ok(answer) => {
                if !answer.ok {
                    return Err(
                        Reject::new(
                            match answer.reason {
                                Some(reason) => reason,
                                None => text::concat3(
                                    "CLI provider ",
                                    self.id.as_str(),
                                    " rejected reservation",
                                ),
                            },
                        ),
                    );
                }
                match answer.grant_id {
                    None => Err(
                        Reject::new(
                            text::concat3(
                                "CLI provider ",
                                self.id.as_str(),
                                " returned ok=true without grant_id",
                            ),
                        ),
                    ),
                    Some(grant_id) => Ok(
                        Grant {
                            id: ReservationId::new(grant_id.as_str()),
                            job_id,
                            provider_id: self.id.clone(),
                            env: answer.env,
                            info: answer.info,
                        },
                    ),
                }
            },
        }
    }

    /// Turns the units that a probe found into a snapshot; none if it failed.
    pub fn probe_outcome(&self, units: Result<Vec<ResourceUnit>, String>) -> (r: Snapshot)
        ensures
            r.provider_id@ == self.spec_id(),
            unit_models(r.units@) == shown_units(units_result(units)),
            match units {
                Ok(v) => r.units == v,
                Err(_) => r.units@.len() == 0,
            },
    {
        Snapshot {
            provider_id: self.id.clone(),
            units: match units {
                Ok(v) => v,
                Err(_) => Vec::new(),
            },
        }
    }
}

impl<R: CliRunner> Provider for CliProvider<R> {
    closed spec fn wf(&self) -> bool {
        true
    }

    closed spec fn spec_id(&self) -> Text {
        self.id@
    }

    closed spec fn spec_keys(&self) -> Seq<Text> {
        text::texts(self.keys@)
    }

    closed spec fn calls(&self) -> Seq<ProviderCall> {
        self.calls@
    }

    fn id(&self) -> (r: ProviderId) {
        self.id.clone()
    }

    fn keys(&self) -> (r: Vec<String>) {
        text::clone_strings(&self.keys)
    }

    fn probe(&mut self) -> (r: Snapshot)
        ensures
            final(self).spec_commands() == old(self).spec_commands(),
            final(self).spec_timeout() == old(self).spec_timeout(),
            exists|answer: Result<Seq<UnitModel>, Text>|
                {
                    &&& unit_models(r.units@) == #[trigger] shown_units(answer)
                    &&& final(self).spec_runs() == old(self).spec_runs().push(
                        CliCall::Probe { command: old(self).spec_commands().0, units: answer },
                    )
                },
    {
        let command = self.probe_command();
        let found = self.runner.probe(&command);
        let ghost answer = units_result(found);
        let snapshot = self.probe_outcome(found);
        proof {
            assert(unit_models(snapshot.units@) == shown_units(answer));
            self.calls@ = self.calls@.push(ProviderCall::Probe(unit_models(snapshot.units@)));
        }
        snapshot
    }

    fn reserve(&mut self, req: &ReserveRequest) -> (r: Result<Grant, Reject>)
        ensures
            final(self).spec_commands() == old(self).spec_commands(),
            final(self).spec_timeout() == old(self).spec_timeout(),
            exists|answer: Result<ResponseModel, Text>|
                {
                    &&& grant_result(r) == #[trigger] reserve_result(
                        old(self).spec_id(),
                        req.job_id,
                        answer,
                    )
                    &&& final(self).spec_runs() == old(self).spec_runs().push(
                        CliCall::Reserve {
                            command: old(self).spec_commands().1,
                            job_id: super::types::job_text(req.job_id),
                            needs: req.need.entries(),
                            answer,
                        },
                    )
                },
    {
        let call = self.reserve_call(req);
        let response = self.runner.reserve(&call.command, call.job_id.as_str(), &call.needs);
        let ghost answer = response_result(response);
        let r = self.reserve_outcome(req.job_id, response);
        proof {
            assert(grant_result(r) == reserve_result(
                old(self).spec_id(),
                req.job_id,
                answer,
            ));
            self.calls@ = self.calls@.push(recorded(*req, r));
        }
        r
    }

    fn release(&mut self, grant_id: &ReservationId)
        ensures
            final(self).spec_commands() == old(self).spec_commands(),
            final(self).spec_timeout() == old(self).spec_timeout(),
            final(self).spec_runs() == old(self).spec_runs().push(
                CliCall::Release {
                    command: old(self).spec_commands().2,
                    grant_id: grant_id@,
                },
            ),
    {
        let call = self.release_call(grant_id);
        self.runner.release(&call.command, call.grant_id.as_str());
        proof {
            self.calls@ = self.calls@.push(ProviderCall::Release(grant_id@));
        }
    }
}

} // verus!
