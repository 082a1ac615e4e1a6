//! Downloading an asset and putting its binary in place of the one that runs.

use vstd::prelude::*;
use vstd::string::*;

use crate::paths::{path_with_extension, with_new_extension};
use crate::service::CommandOutcome;
use crate::text;
use crate::text::Text;
use crate::upgrade::{is_archive, needs_unpacking};
use crate::word_expansion::{join_path, joined_path};

verus! {

/// What to do next.
#[derive(Debug)]
#[allow(inconsistent_fields)]
pub enum ReplaceStep {
    /// Run the program with these arguments.
    Run(Vec<String>),
    /// Look for the binary in this directory.
    FindBinary(String),
    MakeExecutable(String),
    Copy { from: String, to: String },
    Rename { from: String, to: String },
    /// All is done.
    Done,
    /// It cannot be done.
    Fail(String),
}

/// A step over character sequences.
#[allow(inconsistent_fields)]
pub enum ReplaceModel {
    Run(Seq<Text>),
    FindBinary(Text),
    MakeExecutable(Text),
    Copy { from: Text, to: Text },
    Rename { from: Text, to: Text },
    Done,
    Fail(Text),
}

impl View for ReplaceStep {
    type V = ReplaceModel;

    open spec fn view(&self) -> ReplaceModel {
        match self {
            ReplaceStep::Run(argv) => ReplaceModel::Run(text::texts(argv@)),
            ReplaceStep::FindBinary(dir) => ReplaceModel::FindBinary(dir@),
            ReplaceStep::MakeExecutable(path) => ReplaceModel::MakeExecutable(path@),
            ReplaceStep::Copy { from, to } => ReplaceModel::Copy { from: from@, to: to@ },
            ReplaceStep::Rename { from, to } => ReplaceModel::Rename { from: from@, to: to@ },
            ReplaceStep::Done => ReplaceModel::Done,
            ReplaceStep::Fail(e) => ReplaceModel::Fail(e@),
        }
    }
}

/// What is replaced, and by what.
#[derive(Debug)]
pub struct Replacement {
    pub url: String,
    pub asset_name: String,
    pub tmp_dir: String,
    pub target: String,
}

/// How far the replacement has come.
#[derive(Debug)]
pub enum ReplaceState {
    Downloading,
    Unpacking,
    Searching,
    Preparing { binary: String },
    Copying { binary: String },
    PreparingStaged,
    Renaming,
    Finished,
}

/// The state over character sequences.
pub enum ReplaceStateModel {
    Downloading,
    Unpacking,
    Searching,
    Preparing { binary: Text },
    Copying { binary: Text },
    PreparingStaged,
    Renaming,
    Finished,
}

impl View for ReplaceState {
    type V = ReplaceStateModel;

    open spec fn view(&self) -> ReplaceStateModel {
        match self {
            ReplaceState::Downloading => ReplaceStateModel::Downloading,
            ReplaceState::Unpacking => ReplaceStateModel::Unpacking,
            ReplaceState::Searching => ReplaceStateModel::Searching,
            ReplaceState::Preparing { binary } => ReplaceStateModel::Preparing { binary: binary@ },
            ReplaceState::Copying { binary } => ReplaceStateModel::Copying { binary: binary@ },
            ReplaceState::PreparingStaged => ReplaceStateModel::PreparingStaged,
            ReplaceState::Renaming => ReplaceStateModel::Renaming,
            ReplaceState::Finished => ReplaceStateModel::Finished,
        }
    }
}

/// How a step went.
#[derive(Debug)]
pub enum StepOutcome {
    /// A program ran, or could not be started.
    Ran(Result<CommandOutcome, String>),
    /// Where the binary is.
    Found(Result<String, String>),
    /// Anything else.
    Did(Result<(), String>),
}

/// Where the asset is stored.
pub open spec fn archive_path(p: Replacement) -> Text {
    joined_path(p.tmp_dir@, p.asset_name@)
}

/// Where the new binary stands before it takes its place.
pub open spec fn staging_path(p: Replacement) -> Text {
    with_new_extension(p.target@, "new"@)
}

/// The step that is taken in a state.
pub open spec fn step_in(p: Replacement, state: ReplaceStateModel) -> ReplaceModel {
    match state {
        ReplaceStateModel::Downloading => ReplaceModel::Run(
            seq![
                "curl"@,
                "--fail"@,
                "--location"@,
                "--silent"@,
                "--show-error"@,
                "--output"@,
                archive_path(p),
                p.url@,
            ],
        ),
        ReplaceStateModel::Unpacking => ReplaceModel::Run(
            seq!["tar"@, "xzf"@, archive_path(p), "-C"@, p.tmp_dir@],
        ),
        ReplaceStateModel::Searching => ReplaceModel::FindBinary(p.tmp_dir@),
        ReplaceStateModel::Preparing { binary } => ReplaceModel::MakeExecutable(binary),
        ReplaceStateModel::Copying { binary } => ReplaceModel::Copy {
            from: binary,
            to: staging_path(p),
        },
        ReplaceStateModel::PreparingStaged => ReplaceModel::MakeExecutable(staging_path(p)),
        ReplaceStateModel::Renaming => ReplaceModel::Rename {
            from: staging_path(p),
            to: p.target@,
        },
        ReplaceStateModel::Finished => ReplaceModel::Done,
    }
}

/// Why a program did not do what it was to do, if it did not.
pub open spec fn run_error(what: Text, r: Result<CommandOutcome, String>) -> Option<Text> {
    match r {
        Err(e) => Some(what + ": "@ + e@),
        Ok(o) => if o.success {
            None
        } else {
            Some(what + " failed\n"@ + o.summary@)
        },
    }
}

pub open spec fn unexpected() -> Text {
    "unexpected outcome"@
}

/// The state after a step went so, or why there is none.
pub open spec fn state_after(
    p: Replacement,
    state: ReplaceStateModel,
    outcome: StepOutcome,
) -> Result<ReplaceStateModel, Text> {
    match (state, outcome) {
        (ReplaceStateModel::Downloading, StepOutcome::Ran(r)) => match run_error(
            "download release asset"@,
            r,
        ) {
            Some(e) => Err(e),
            None => if needs_unpacking(p.asset_name@) {
                Ok(ReplaceStateModel::Unpacking)
            } else {
                Ok(ReplaceStateModel::Preparing { binary: archive_path(p) })
            },
        },
        (ReplaceStateModel::Unpacking, StepOutcome::Ran(r)) => match run_error(
            "extract release archive"@,
            r,
        ) {
            Some(e) => Err(e),
            None => Ok(ReplaceStateModel::Searching),
        },
        (ReplaceStateModel::Searching, StepOutcome::Found(r)) => match r {
            Ok(binary) => Ok(ReplaceStateModel::Preparing { binary: binary@ }),
            Err(e) => Err(e@),
        },
        (ReplaceStateModel::Preparing { binary }, StepOutcome::Did(r)) => match r {
            Ok(()) => Ok(ReplaceStateModel::Copying { binary }),
            Err(e) => Err(e@),
        },
        (ReplaceStateModel::Copying { binary }, StepOutcome::Did(r)) => match r {
            Ok(()) => Ok(ReplaceStateModel::PreparingStaged),
            Err(e) => Err("copy binary to staging "@ + staging_path(p) + ": "@ + e@),
        },
        (ReplaceStateModel::PreparingStaged, StepOutcome::Did(r)) => match r {
            Ok(()) => Ok(ReplaceStateModel::Renaming),
            Err(e) => Err(e@),
        },
        (ReplaceStateModel::Renaming, StepOutcome::Did(r)) => match r {
            Ok(()) => Ok(ReplaceStateModel::Finished),
            Err(e) => Err("atomic rename to "@ + p.target@ + ": "@ + e@),
        },
        _ => Err(unexpected()),
    }
}

fn find_run_error(what: &str, r: &Result<CommandOutcome, String>) -> (e: Option<String>)
    ensures
        text::opt_text(e) == run_error(what@, *r),
{
    match r {
        Err(e) => Some(text::concat3(what, ": ", e.as_str())),
        Ok(o) => if o.success {
            None
        } else {
            Some(text::concat3(what, " failed\n", o.summary.as_str()))
        },
    }
}

/// The step that is taken in a state.
pub fn replace_step(p: &Replacement, state: &ReplaceState) -> (r: ReplaceStep)
    ensures
        r@ == step_in(*p, state@),
{
    match state {
        ReplaceState::Downloading => {
            let mut argv = text::texts4(
                "curl".to_owned(),
                "--fail".to_owned(),
                "--location".to_owned(),
                "--silent".to_owned(),
            );
            let mut rest = text::texts4(
                "--show-error".to_owned(),
                "--output".to_owned(),
                join_path(p.tmp_dir.as_str(), p.asset_name.as_str()),
                p.url.clone(),
            );
            let ghost a = text::texts(argv@);
            let ghost b = text::texts(rest@);
            argv.append(&mut rest);
            proof {
                assert(text::texts(argv@) =~= a + b);
                assert(ReplaceModel::Run(text::texts(argv@)) == step_in(*p, state@)) by {
                    assert(text::texts(argv@) =~= step_in(*p, state@)->Run_0);
                }
            }
            ReplaceStep::Run(argv)
        },
        ReplaceState::Unpacking => {
            let mut argv = text::texts4(
                "tar".to_owned(),
                "xzf".to_owned(),
                join_path(p.tmp_dir.as_str(), p.asset_name.as_str()),
                "-C".to_owned(),
            );
            let ghost a = text::texts(argv@);
            let mut rest = text::texts1(p.tmp_dir.clone());
            let ghost b = text::texts(rest@);
            argv.append(&mut rest);
            proof {
                assert(text::texts(argv@) =~= a + b);
                assert(text::texts(argv@) =~= step_in(*p, state@)->Run_0);
            }
            ReplaceStep::Run(argv)
        },
        ReplaceState::Searching => ReplaceStep::FindBinary(p.tmp_dir.clone()),
        ReplaceState::Preparing { binary } => ReplaceStep::MakeExecutable(binary.clone()),
        ReplaceState::Copying { binary } => ReplaceStep::Copy {
            from: binary.clone(),
            to: path_with_extension(p.target.as_str(), "new"),
        },
        ReplaceState::PreparingStaged => ReplaceStep::MakeExecutable(
            path_with_extension(p.target.as_str(), "new"),
        ),
        ReplaceState::Renaming => ReplaceStep::Rename {
            from: path_with_extension(p.target.as_str(), "new"),
            to: p.target.clone(),
        },
        ReplaceState::Finished => ReplaceStep::Done,
    }
}

/// The state after a step went so, or why the binary is not replaced.
pub fn download_and_replace(p: &Replacement, state: ReplaceState, outcome: StepOutcome) -> (r: Result<
    ReplaceState,
    String,
>)
    ensures
        match r {
            Ok(s) => state_after(*p, state@, outcome) == Ok::<ReplaceStateModel, Text>(s@),
            Err(e) => state_after(*p, state@, outcome) == Err::<ReplaceStateModel, Text>(e@),
        },
{
    match (state, outcome) {
        (ReplaceState::Downloading, StepOutcome::Ran(r)) => match find_run_error(
            "download release asset",
            &r,
        ) {
            Some(e) => Err(e),
            None => if is_archive(p.asset_name.as_str()) {
                Ok(ReplaceState::Unpacking)
            } else {
                Ok(
                    ReplaceState::Preparing {
                        binary: join_path(p.tmp_dir.as_str(), p.asset_name.as_str()),
                    },
                )
            },
        },
        (ReplaceState::Unpacking, StepOutcome::Ran(r)) => match find_run_error(
            "extract release archive",
            &r,
        ) {
            Some(e) => Err(e),
            None => Ok(ReplaceState::Searching),
        },
        (ReplaceState::Searching, StepOutcome::Found(r)) => match r {
            Ok(binary) => Ok(ReplaceState::Preparing { binary }),
            Err(e) => Err(e),
        },
        (ReplaceState::Preparing { binary }, StepOutcome::Did(r)) => match r {
            Ok(()) => Ok(ReplaceState::Copying { binary }),
            Err(e) => Err(e),
        },
        (ReplaceState::Copying { .. }, StepOutcome::Did(r)) => match r {
            Ok(()) => Ok(ReplaceState::PreparingStaged),
            Err(e) => {
                let staging = path_with_extension(p.target.as_str(), "new");
                Err(text::concat4("copy binary to staging ", staging.as_str(), ": ", e.as_str()))
            },
        },
        (ReplaceState::PreparingStaged, StepOutcome::Did(r)) => match r {
            Ok(()) => Ok(ReplaceState::Renaming),
            Err(e) => Err(e),
        },
        (ReplaceState::Renaming, StepOutcome::Did(r)) => match r {
            Ok(()) => Ok(ReplaceState::Finished),
            Err(e) => Err(text::concat4("atomic rename to ", p.target.as_str(), ": ", e.as_str())),
        },
        _ => Err("unexpected outcome".to_owned()),
    }
}

// ── Laws ──

/// How many steps are left at most.
pub open spec fn steps_left(state: ReplaceStateModel) -> nat {
    match state {
        ReplaceStateModel::Downloading => 7,
        ReplaceStateModel::Unpacking => 6,
        ReplaceStateModel::Searching => 5,
        ReplaceStateModel::Preparing { binary } => 4,
        ReplaceStateModel::Copying { binary } => 3,
        ReplaceStateModel::PreparingStaged => 2,
        ReplaceStateModel::Renaming => 1,
        ReplaceStateModel::Finished => 0,
    }
}

/// Every step that goes well leads nearer to the end.
pub proof fn lemma_replacement_ends(p: Replacement, state: ReplaceStateModel, outcome: StepOutcome)
    ensures
        state_after(p, state, outcome) matches Ok(s) ==> steps_left(s) < steps_left(state),
{
}

/// The binary that runs is touched by the last step alone, and only by putting
/// the staged one in its place.
pub proof fn lemma_target_replaced_last(p: Replacement, state: ReplaceStateModel)
    ensures
        step_in(p, state) matches ReplaceModel::Rename { from, to } ==> to == p.target@ && from
            == staging_path(p) && steps_left(state) == 1,
        step_in(p, state) matches ReplaceModel::Copy { from, to } ==> to == staging_path(p),
{
}

} // verus!
