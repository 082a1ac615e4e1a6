//! The service, the replacement of the program and the schema: which step follows which.

use vstd::prelude::*;

use crate::text;
use crate::replacement::{
    staging_path, state_after, step_in, Replacement, ReplaceModel, ReplaceStateModel, StepOutcome,
};
use crate::service::{
    activate_step, deactivate_step, failures, file_path, restart_step, CommandOutcome, Platform,
    ServiceStepModel,
};
use crate::storage::migration::{plan_from, steps_to, SCHEMA_VERSION, StepModel};
use crate::text::Text;
use crate::upgrade::needs_unpacking;

verus! {

/// Whether the command at `i` ran and went well.
pub open spec fn went_well(outcomes: Seq<CommandOutcome>, i: int) -> bool {
    0 <= i < outcomes.len() && outcomes[i].success
}

/// Whether the command at `i` ran and did not go well.
pub open spec fn went_wrong(outcomes: Seq<CommandOutcome>, i: int) -> bool {
    0 <= i < outcomes.len() && !outcomes[i].success
}

/// A service is active on macOS once one of the two ways to load it went well and not
/// before, and on Linux once both commands did; it fails where that cannot come to be.
pub proof fn lemma_activation(uid: u32, file: Text, outcomes: Seq<CommandOutcome>)
    ensures
        activate_step(Platform::MacOs, uid, file, outcomes) is Done <==> went_well(outcomes, 0)
            || (outcomes.len() > 0 && went_well(outcomes, 1)),
        activate_step(Platform::MacOs, uid, file, outcomes) is Fail <==> went_wrong(outcomes, 0)
            && went_wrong(outcomes, 1),
        activate_step(Platform::Linux, uid, file, outcomes) is Done <==> went_well(outcomes, 0)
            && went_well(outcomes, 1),
        activate_step(Platform::Linux, uid, file, outcomes) is Fail <==> went_wrong(outcomes, 0) || (
        went_well(outcomes, 0) && went_wrong(outcomes, 1)),
        activate_step(Platform::Other, uid, file, outcomes) is Fail,
        !(activate_step(Platform::MacOs, uid, file, outcomes) is DoneWithWarning),
        !(activate_step(Platform::Linux, uid, file, outcomes) is DoneWithWarning),
{
}

/// The service of the user is loaded from the file that was written, and unloaded from it.
pub proof fn lemma_service_commands(uid: u32, file: Text, failed: CommandOutcome, o: CommandOutcome)
    requires
        !failed.success,
        o.success,
    ensures
        ({
            let none = Seq::<CommandOutcome>::empty();
            let gui = "gui/"@ + text::decimal(uid as nat);
            &&& activate_step(Platform::MacOs, uid, file, none) == ServiceStepModel::Run(
                seq!["launchctl"@, "bootstrap"@, gui, file],
            )
            &&& activate_step(Platform::MacOs, uid, file, seq![failed]) == ServiceStepModel::Run(
                seq!["launchctl"@, "load"@, "-w"@, file],
            )
            &&& deactivate_step(Platform::MacOs, uid, file, none) == ServiceStepModel::Run(
                seq!["launchctl"@, "bootout"@, gui, file],
            )
            &&& deactivate_step(Platform::MacOs, uid, file, seq![failed]) == ServiceStepModel::Run(
                seq!["launchctl"@, "unload"@, "-w"@, file],
            )
            &&& activate_step(Platform::Linux, uid, file, none) == ServiceStepModel::Run(
                seq!["systemctl"@, "--user"@, "daemon-reload"@],
            )
            &&& activate_step(Platform::Linux, uid, file, seq![o]) == ServiceStepModel::Run(
                seq!["systemctl"@, "--user"@, "enable"@, "--now"@, "cued"@],
            )
            &&& deactivate_step(Platform::Linux, uid, file, none) == ServiceStepModel::Run(
                seq!["systemctl"@, "--user"@, "disable"@, "--now"@, "cued"@],
            )
            &&& deactivate_step(Platform::Linux, uid, file, seq![o]) == ServiceStepModel::Run(
                seq!["systemctl"@, "--user"@, "daemon-reload"@],
            )
            &&& deactivate_step(Platform::Linux, uid, file, seq![failed]) == ServiceStepModel::Run(
                seq!["systemctl"@, "--user"@, "daemon-reload"@],
            )
            &&& restart_step(Platform::MacOs, uid, none) == ServiceStepModel::Run(
                seq!["launchctl"@, "kickstart"@, "-k"@, gui + "/com.cue-shell.cued"@],
            )
            &&& restart_step(Platform::Linux, uid, none) == ServiceStepModel::Run(
                seq!["systemctl"@, "--user"@, "restart"@, "cued"@],
            )
        }),
{
}

proof fn lemma_failures(outcomes: Seq<CommandOutcome>)
    ensures
        failures(outcomes).len() == 0 <==> forall|i: int|
            0 <= i < outcomes.len() ==> (#[trigger] outcomes[i]).success,
    decreases outcomes.len(),
{
    if outcomes.len() > 0 {
        let front = outcomes.drop_last();
        lemma_failures(front);
        assert(outcomes.last() == outcomes[outcomes.len() - 1]);
        assert(forall|i: int| 0 <= i < front.len() ==> front[i] == #[trigger] outcomes[i]);
        if failures(outcomes).len() == 0 {
            assert forall|i: int| 0 <= i < outcomes.len() implies (#[trigger] outcomes[i]).success by {
                if i < front.len() {
                    assert(front[i].success);
                }
            }
        } else if outcomes.last().success {
            let i = choose|i: int| 0 <= i < front.len() && !(#[trigger] front[i]).success;
            assert(!outcomes[i].success);
        }
    }
}

/// A deactivation ends on macOS with the first command that went well, and on Linux with
/// the second command in any case; it warns just where a command that had to go well did
/// not.
pub proof fn lemma_deactivation(uid: u32, file: Text, outcomes: Seq<CommandOutcome>)
    requires
        outcomes.len() <= 2,
    ensures
        deactivate_step(Platform::MacOs, uid, file, outcomes) is Done <==> went_well(outcomes, 0)
            || went_well(outcomes, 1),
        deactivate_step(Platform::MacOs, uid, file, outcomes) is DoneWithWarning <==> went_wrong(
            outcomes,
            0,
        ) && went_wrong(outcomes, 1),
        deactivate_step(Platform::Linux, uid, file, outcomes) is Done <==> went_well(outcomes, 0)
            && went_well(outcomes, 1),
        deactivate_step(Platform::Linux, uid, file, outcomes) is DoneWithWarning <==> outcomes.len()
            == 2 && (went_wrong(outcomes, 0) || went_wrong(outcomes, 1)),
        deactivate_step(Platform::Other, uid, file, outcomes) is Fail,
{
    lemma_failures(outcomes);
    if went_wrong(outcomes, 0) {
        assert(!outcomes[0].success);
    }
    if went_wrong(outcomes, 1) {
        assert(!outcomes[1].success);
    }
}

/// A restart is what its one command was.
pub proof fn lemma_restart(platform: Platform, uid: u32, outcomes: Seq<CommandOutcome>)
    requires
        platform != Platform::Other,
    ensures
        restart_step(platform, uid, outcomes) is Run <==> outcomes.len() == 0,
        restart_step(platform, uid, outcomes) is Done <==> went_well(outcomes, 0),
        went_wrong(outcomes, 0) ==> restart_step(platform, uid, outcomes) == ServiceStepModel::Fail(
            outcomes[0].summary@,
        ),
        restart_step(Platform::Other, uid, outcomes) is Fail,
{
}

/// The service file stands below the home directory, in the place of its platform.
pub proof fn lemma_service_file(home: Text)
    ensures
        file_path(Platform::MacOs, home) == home
            + "/Library/LaunchAgents/com.cue-shell.cued.plist"@,
        file_path(Platform::Linux, home) == home + "/.config/systemd/user/cued.service"@,
{
}

// ── Replacement ──

/// Whether a step went well.
pub open spec fn well(outcome: StepOutcome) -> bool {
    match outcome {
        StepOutcome::Ran(r) => r matches Ok(o) && o.success,
        StepOutcome::Found(r) => r is Ok,
        StepOutcome::Did(r) => r is Ok,
    }
}

/// The step behind a state whose step went so.
pub open spec fn then_step(p: Replacement, state: ReplaceStateModel, outcome: StepOutcome) -> Option<
    ReplaceModel,
> {
    match state_after(p, state, outcome) {
        Ok(next) => Some(step_in(p, next)),
        Err(_) => None,
    }
}

/// The asset is downloaded from its address into the temporary directory; an archive is
/// unpacked there from the file that was downloaded and then searched, and anything else
/// is itself the new program.
pub proof fn lemma_downloaded_asset_used(p: Replacement, outcome: StepOutcome)
    requires
        outcome is Ran,
    ensures
        step_in(p, ReplaceStateModel::Downloading) matches ReplaceModel::Run(argv) && {
            &&& argv.len() == 8
            &&& argv[0] == "curl"@
            &&& argv[5] == "--output"@
            &&& argv[7] == p.url@
            &&& well(outcome) && needs_unpacking(p.asset_name@) ==> then_step(
                p,
                ReplaceStateModel::Downloading,
                outcome,
            ) == Some(
                ReplaceModel::Run(seq!["tar"@, "xzf"@, argv[6], "-C"@, p.tmp_dir@]),
            )
            &&& well(outcome) && !needs_unpacking(p.asset_name@) ==> then_step(
                p,
                ReplaceStateModel::Downloading,
                outcome,
            ) == Some(ReplaceModel::MakeExecutable(argv[6]))
        },
        well(outcome) ==> then_step(p, ReplaceStateModel::Unpacking, outcome) == Some(
            ReplaceModel::FindBinary(p.tmp_dir@),
        ),
{
}

/// The program that was found is made executable, copied beside the one that runs, made
/// executable there too, and put in its place; then all is done.
pub proof fn lemma_found_program_put_in_place(p: Replacement, binary: String, b: Text)
    ensures
        ({
            let ok = StepOutcome::Did(Ok(()));
            let staged = staging_path(p);
            &&& then_step(p, ReplaceStateModel::Searching, StepOutcome::Found(Ok(binary))) == Some(
                ReplaceModel::MakeExecutable(binary@),
            )
            &&& then_step(p, ReplaceStateModel::Preparing { binary: b }, ok) == Some(
                ReplaceModel::Copy { from: b, to: staged },
            )
            &&& then_step(p, ReplaceStateModel::Copying { binary: b }, ok) == Some(
                ReplaceModel::MakeExecutable(staged),
            )
            &&& then_step(p, ReplaceStateModel::PreparingStaged, ok) == Some(
                ReplaceModel::Rename { from: staged, to: p.target@ },
            )
            &&& then_step(p, ReplaceStateModel::Renaming, ok) == Some(ReplaceModel::Done)
        }),
{
}

/// A step that did not go well ends the replacement, and so does the outcome of another
/// kind of step.
pub proof fn lemma_failed_step_ends(p: Replacement, state: ReplaceStateModel, outcome: StepOutcome)
    ensures
        !well(outcome) ==> then_step(p, state, outcome) is None,
        well(outcome) ==> (then_step(p, state, outcome) is Some <==> match step_in(p, state) {
            ReplaceModel::Run(_) => outcome is Ran,
            ReplaceModel::FindBinary(_) => outcome is Found,
            ReplaceModel::Done => false,
            _ => outcome is Did,
        }),
{
}

// ── Schema ──

/// A plan sets each version from the next one to the current one, once and in order, behind
/// the statements that lead to it.
pub proof fn lemma_each_version_in_turn(current: int)
    requires
        0 <= current < SCHEMA_VERSION,
    ensures
        ({
            let next = (current + 1) as u32;
            let n = steps_to(next).len() as int;
            let plan = plan_from(current);
            &&& plan.len() > n
            &&& plan.take(n) == steps_to(next)
            &&& plan[n] == StepModel::SetVersion(next)
            &&& plan.skip(n + 1) == plan_from(current + 1)
        }),
{
    let next = (current + 1) as u32;
    let steps = steps_to(next);
    let head = steps.push(StepModel::SetVersion(next));
    let plan = plan_from(current);
    let n = steps.len() as int;
    assert(plan == head + plan_from(current + 1));
    assert(plan.take(n) =~= steps);
    assert(plan.skip(n + 1) =~= plan_from(current + 1));
}

/// Whether a step adds this column to this table, where it is not there yet.
pub open spec fn adds(step: StepModel, table: Text, column: Text) -> bool {
    step matches StepModel::Execute { unless, sql, context } && unless == Some((table, column))
}

/// Each column is added by the step of its version.
pub proof fn lemma_columns_added()
    ensures
        SCHEMA_VERSION == 14,
        steps_to(1).len() == 1 && steps_to(1)[0] matches StepModel::Execute { unless: None, .. },
        steps_to(2).len() == 1 && adds(steps_to(2)[0], "crons"@, "scope_hash"@),
        steps_to(3).len() == 3 && adds(steps_to(3)[0], "jobs_history"@, "start_scope"@) && adds(
            steps_to(3)[1],
            "jobs_history"@,
            "end_scope"@,
        ),
        steps_to(4).len() == 0 && steps_to(5).len() == 0,
        steps_to(6).len() == 2 && adds(steps_to(6)[0], "crons"@, "status"@),
        steps_to(7).len() == 1 && adds(steps_to(7)[0], "jobs_history"@, "chain_id"@),
        steps_to(8).len() == 1 && adds(steps_to(8)[0], "jobs_history"@, "stderr"@),
        steps_to(9).len() == 1 && steps_to(9)[0] matches StepModel::Execute { unless: None, .. },
        steps_to(10).len() == 1 && adds(steps_to(10)[0], "crons"@, "cwd_override"@),
        steps_to(11).len() == 1 && adds(steps_to(11)[0], "crons"@, "scope_enabled"@),
        steps_to(12).len() == 1 && adds(steps_to(12)[0], "crons"@, "wrapper_enabled"@),
        steps_to(13).len() == 3 && adds(steps_to(13)[0], "script_runs"@, "exit_code"@) && adds(
            steps_to(13)[1],
            "script_runs"@,
            "failed_item_index"@,
        ) && adds(steps_to(13)[2], "script_runs"@, "finished_at"@),
        steps_to(14).len() == 2 && adds(steps_to(14)[0], "crons"@, "created_at_ms"@),
{
}

} // verus!
