//! Service management: the files and commands of the platform's manager.
//!
//! - macOS: `launchd` via `~/Library/LaunchAgents/com.cue-shell.cued.plist`
//! - Linux: `systemd --user` via `~/.config/systemd/user/cued.service`
//!
//! A normal shutdown does not restart the daemon, a crash does.

use vstd::prelude::*;
use vstd::string::*;

use crate::paths::{parent_of, path_parent};
use crate::text;
use crate::text::Text;

verus! {

/// The platform whose service manager is used.
#[derive(Debug, Clone, Copy, PartialEq, Eq, Structural)]
pub enum Platform {
    MacOs,
    Linux,
    Other,
}

/// How a command went: whether it ran and succeeded, and what to report if not.
#[derive(Debug)]
pub struct CommandOutcome {
    pub success: bool,
    pub summary: String,
}

/// What to do next.
#[derive(Debug)]
pub enum ServiceStep {
    /// Run the program with these arguments.
    Run(Vec<String>),
    /// All is done.
    Done,
    /// All is done, but this has to be reported.
    DoneWithWarning(String),
    /// It cannot be done.
    Fail(String),
}

/// A step over character sequences.
pub enum ServiceStepModel {
    Run(Seq<Text>),
    Done,
    DoneWithWarning(Text),
    Fail(Text),
}

impl View for ServiceStep {
    type V = ServiceStepModel;

    open spec fn view(&self) -> ServiceStepModel {
        match self {
            ServiceStep::Run(argv) => ServiceStepModel::Run(text::texts(argv@)),
            ServiceStep::Done => ServiceStepModel::Done,
            ServiceStep::DoneWithWarning(w) => ServiceStepModel::DoneWithWarning(w@),
            ServiceStep::Fail(e) => ServiceStepModel::Fail(e@),
        }
    }
}

pub open spec fn unsupported() -> Text {
    "service management is not supported on this platform"@
}

/// Where the service file stands.
pub open spec fn file_path(platform: Platform, home: Text) -> Text {
    match platform {
        Platform::MacOs => home + "/Library/LaunchAgents/com.cue-shell.cued.plist"@,
        Platform::Linux => home + "/.config/systemd/user/cued.service"@,
        Platform::Other => "/unsupported"@,
    }
}

pub fn service_file_path(platform: Platform, home: &str) -> (r: String)
    ensures
        r@ == file_path(platform, home@),
{
    match platform {
        Platform::MacOs => text::concat2(home, "/Library/LaunchAgents/com.cue-shell.cued.plist"),
        Platform::Linux => text::concat2(home, "/.config/systemd/user/cued.service"),
        Platform::Other => "/unsupported".to_owned(),
    }
}

/// The contents of the service file.
pub open spec fn file_content(platform: Platform, exe: Text, log: Text) -> Result<Text, Text> {
    match platform {
        Platform::MacOs => Ok(
            "<?xml version=\"1.0\" encoding=\"UTF-8\"?>\n<!DOCTYPE plist PUBLIC \"-//Apple//DTD PLIST 1.0//EN\"\n    \"http://www.apple.com/DTDs/PropertyList-1.0.dtd\">\n<plist version=\"1.0\">\n<dict>\n    <key>Label</key>\n    <string>com.cue-shell.cued</string>\n    <key>ProgramArguments</key>\n    <array>\n        <string>"@
                + exe
                + "</string>\n        <string>start</string>\n        <string>--fg</string>\n    </array>\n    <key>RunAtLoad</key>\n    <true/>\n    <key>KeepAlive</key>\n    <dict>\n        <key>SuccessfulExit</key>\n        <false/>\n    </dict>\n    <key>StandardErrorPath</key>\n    <string>"@
                + log + "</string>\n</dict>\n</plist>\n"@,
        ),
        Platform::Linux => Ok(
            "[Unit]\nDescription=cued — background daemon for cue-shell\nAfter=default.target\n\n[Service]\nExecStart="@
                + exe
                + " start --fg\nRestart=on-failure\nRestartSec=3\n\n[Install]\nWantedBy=default.target\n"@,
        ),
        Platform::Other => Err(unsupported()),
    }
}

pub fn service_file_content(platform: Platform, exe: &str, log: &str) -> (r: Result<String, String>)
    ensures
        match r {
            Ok(s) => file_content(platform, exe@, log@) == Ok::<Text, Text>(s@),
            Err(e) => file_content(platform, exe@, log@) == Err::<Text, Text>(e@),
        },
{
    match platform {
        Platform::MacOs => Ok(
            text::concat5(
                "<?xml version=\"1.0\" encoding=\"UTF-8\"?>\n<!DOCTYPE plist PUBLIC \"-//Apple//DTD PLIST 1.0//EN\"\n    \"http://www.apple.com/DTDs/PropertyList-1.0.dtd\">\n<plist version=\"1.0\">\n<dict>\n    <key>Label</key>\n    <string>com.cue-shell.cued</string>\n    <key>ProgramArguments</key>\n    <array>\n        <string>",
                exe,
                "</string>\n        <string>start</string>\n        <string>--fg</string>\n    </array>\n    <key>RunAtLoad</key>\n    <true/>\n    <key>KeepAlive</key>\n    <dict>\n        <key>SuccessfulExit</key>\n        <false/>\n    </dict>\n    <key>StandardErrorPath</key>\n    <string>",
                log,
                "</string>\n</dict>\n</plist>\n",
            ),
        ),
        Platform::Linux => Ok(
            text::concat3(
                "[Unit]\nDescription=cued — background daemon for cue-shell\nAfter=default.target\n\n[Service]\nExecStart=",
                exe,
                " start --fg\nRestart=on-failure\nRestartSec=3\n\n[Install]\nWantedBy=default.target\n",
            ),
        ),
        Platform::Other => Err(
            "service management is not supported on this platform".to_owned(),
        ),
    }
}

/// What installing writes before the service is activated.
#[derive(Debug)]
pub struct InstallPlan {
    /// The directory that has to be there.
    pub dir: Option<String>,
    pub file: String,
    pub content: String,
}

/// What is written to install the service, or why it cannot be installed.
pub fn install(platform: Platform, home: &str, exe: &str, log: &str) -> (r: Result<
    InstallPlan,
    String,
>)
    ensures
        match r {
            Ok(p) => p.file@ == file_path(platform, home@) && text::opt_text(p.dir) == parent_of(
                file_path(platform, home@),
            ) && file_content(platform, exe@, log@) == Ok::<Text, Text>(p.content@),
            Err(e) => file_content(platform, exe@, log@) == Err::<Text, Text>(e@),
        },
{
    let file = service_file_path(platform, home);
    match service_file_content(platform, exe, log) {
        Ok(content) => Ok(InstallPlan { dir: path_parent(file.as_str()), file, content }),
        Err(e) => Err(e),
    }
}


pub open spec fn gui_target(uid: u32) -> Text {
    "gui/"@ + text::decimal(uid as nat)
}

/// The step that follows these outcomes while a service is activated.
pub open spec fn activate_step(
    platform: Platform,
    uid: u32,
    file: Text,
    outcomes: Seq<CommandOutcome>,
) -> ServiceStepModel {
    match platform {
        Platform::MacOs => if outcomes.len() == 0 {
            ServiceStepModel::Run(seq!["launchctl"@, "bootstrap"@, gui_target(uid), file])
        } else if outcomes[0].success {
            ServiceStepModel::Done
        } else if outcomes.len() == 1 {
            ServiceStepModel::Run(seq!["launchctl"@, "load"@, "-w"@, file])
        } else if outcomes[1].success {
            ServiceStepModel::Done
        } else {
            ServiceStepModel::Fail(
                "launchctl bootstrap and launchctl load both failed — check the plist at "@ + file
                    + "\n"@ + outcomes[0].summary@ + "\n"@ + outcomes[1].summary@,
            )
        },
        Platform::Linux => if outcomes.len() == 0 {
            ServiceStepModel::Run(seq!["systemctl"@, "--user"@, "daemon-reload"@])
        } else if !outcomes[0].success {
            ServiceStepModel::Fail(outcomes[0].summary@)
        } else if outcomes.len() == 1 {
            ServiceStepModel::Run(seq!["systemctl"@, "--user"@, "enable"@, "--now"@, "cued"@])
        } else if !outcomes[1].success {
            ServiceStepModel::Fail(outcomes[1].summary@)
        } else {
            ServiceStepModel::Done
        },
        Platform::Other => ServiceStepModel::Fail(unsupported()),
    }
}

fn argv5(a: &str, b: &str, c: &str, d: &str, e: &str) -> (r: Vec<String>)
    ensures
        text::texts(r@) == seq![a@, b@, c@, d@, e@],
{
    let mut r = text::texts4(a.to_owned(), b.to_owned(), c.to_owned(), d.to_owned());
    let ghost before = r@;
    let last = e.to_owned();
    r.push(last);
    assert(text::texts(r@) =~= text::texts(before).push(last@));
    assert(text::texts(r@) =~= seq![a@, b@, c@, d@, e@]);
    r
}

pub fn activate(platform: Platform, uid: u32, file: &str, outcomes: &Vec<CommandOutcome>) -> (r:
    ServiceStep)
    ensures
        r@ == activate_step(platform, uid, file@, outcomes@),
{
    match platform {
        Platform::MacOs => {
            if outcomes.len() == 0 {
                let target = text::concat2("gui/", text::decimal_u64(uid as u64).as_str());
                ServiceStep::Run(
                    text::texts4("launchctl".to_owned(), "bootstrap".to_owned(), target, file.to_owned()),
                )
            } else if outcomes[0].success {
                ServiceStep::Done
            } else if outcomes.len() == 1 {
                ServiceStep::Run(
                    text::texts4(
                        "launchctl".to_owned(),
                        "load".to_owned(),
                        "-w".to_owned(),
                        file.to_owned(),
                    ),
                )
            } else if outcomes[1].success {
                ServiceStep::Done
            } else {
                let mut e = text::concat3(
                    "launchctl bootstrap and launchctl load both failed — check the plist at ",
                    file,
                    "\n",
                );
                e.append(outcomes[0].summary.as_str());
                e.append("\n");
                e.append(outcomes[1].summary.as_str());
                ServiceStep::Fail(e)
            }
        },
        Platform::Linux => {
            if outcomes.len() == 0 {
                ServiceStep::Run(
                    text::texts3("systemctl".to_owned(), "--user".to_owned(), "daemon-reload".to_owned()),
                )
            } else if !outcomes[0].success {
                ServiceStep::Fail(outcomes[0].summary.clone())
            } else if outcomes.len() == 1 {
                ServiceStep::Run(argv5("systemctl", "--user", "enable", "--now", "cued"))
            } else if !outcomes[1].success {
                ServiceStep::Fail(outcomes[1].summary.clone())
            } else {
                ServiceStep::Done
            }
        },
        Platform::Other => ServiceStep::Fail(
            "service management is not supported on this platform".to_owned(),
        ),
    }
}

/// What went wrong, of those commands that failed.
pub open spec fn failures(outcomes: Seq<CommandOutcome>) -> Seq<Text>
    decreases outcomes.len(),
{
    if outcomes.len() == 0 {
        Seq::empty()
    } else {
        let before = failures(outcomes.drop_last());
        if outcomes.last().success {
            before
        } else {
            before.push(outcomes.last().summary@)
        }
    }
}

/// The end of a deactivation, which failures do not stop.
pub open spec fn deactivated(failed: Seq<Text>) -> ServiceStepModel {
    if failed.len() == 0 {
        ServiceStepModel::Done
    } else {
        ServiceStepModel::DoneWithWarning(
            "cued: warning: service manager did not confirm deactivation; removing the service file anyway\n"@
                + text::join(failed, "\n"@),
        )
    }
}

/// The step that follows these outcomes while a service is deactivated.
pub open spec fn deactivate_step(
    platform: Platform,
    uid: u32,
    file: Text,
    outcomes: Seq<CommandOutcome>,
) -> ServiceStepModel {
    match platform {
        Platform::MacOs => if outcomes.len() == 0 {
            ServiceStepModel::Run(seq!["launchctl"@, "bootout"@, gui_target(uid), file])
        } else if outcomes[0].success {
            ServiceStepModel::Done
        } else if outcomes.len() == 1 {
            ServiceStepModel::Run(seq!["launchctl"@, "unload"@, "-w"@, file])
        } else if outcomes[1].success {
            ServiceStepModel::Done
        } else {
            deactivated(failures(outcomes))
        },
        Platform::Linux => if outcomes.len() == 0 {
            ServiceStepModel::Run(seq!["systemctl"@, "--user"@, "disable"@, "--now"@, "cued"@])
        } else if outcomes.len() == 1 {
            ServiceStepModel::Run(seq!["systemctl"@, "--user"@, "daemon-reload"@])
        } else {
            deactivated(failures(outcomes))
        },
        Platform::Other => ServiceStepModel::Fail(unsupported()),
    }
}

fn finish_deactivation(outcomes: &Vec<CommandOutcome>) -> (r: ServiceStep)
    ensures
        r@ == deactivated(failures(outcomes@)),
{
    let mut failed: Vec<String> = Vec::new();
    let mut i: usize = 0;
    assert(outcomes@.take(0) =~= Seq::<CommandOutcome>::empty());
    assert(text::texts(failed@) =~= failures(outcomes@.take(0)));
    while i < outcomes.len()
        invariant
            i <= outcomes@.len(),
            text::texts(failed@) == failures(outcomes@.take(i as int)),
        decreases outcomes@.len() - i,
    {
        assert(outcomes@.take(i + 1).drop_last() =~= outcomes@.take(i as int));
        if !outcomes[i].success {
            let s = outcomes[i].summary.clone();
            assert(text::texts(failed@.push(s)) =~= text::texts(failed@).push(s@));
            failed.push(s);
        }
        i = i + 1;
    }
    assert(outcomes@.take(i as int) =~= outcomes@);
    if failed.len() == 0 {
        ServiceStep::Done
    } else {
        ServiceStep::DoneWithWarning(
            text::concat2(
                "cued: warning: service manager did not confirm deactivation; removing the service file anyway\n",
                text::join_strings(&failed, "\n").as_str(),
            ),
        )
    }
}

pub fn deactivate(platform: Platform, uid: u32, file: &str, outcomes: &Vec<CommandOutcome>) -> (r:
    ServiceStep)
    ensures
        r@ == deactivate_step(platform, uid, file@, outcomes@),
{
    match platform {
        Platform::MacOs => {
            if outcomes.len() == 0 {
                let target = text::concat2("gui/", text::decimal_u64(uid as u64).as_str());
                ServiceStep::Run(
                    text::texts4("launchctl".to_owned(), "bootout".to_owned(), target, file.to_owned()),
                )
            } else if outcomes[0].success {
                ServiceStep::Done
            } else if outcomes.len() == 1 {
                ServiceStep::Run(
                    text::texts4(
                        "launchctl".to_owned(),
                        "unload".to_owned(),
                        "-w".to_owned(),
                        file.to_owned(),
                    ),
                )
            } else if outcomes[1].success {
                ServiceStep::Done
            } else {
                finish_deactivation(outcomes)
            }
        },
        Platform::Linux => {
            if outcomes.len() == 0 {
                ServiceStep::Run(argv5("systemctl", "--user", "disable", "--now", "cued"))
            } else if outcomes.len() == 1 {
                ServiceStep::Run(
                    text::texts3("systemctl".to_owned(), "--user".to_owned(), "daemon-reload".to_owned()),
                )
            } else {
                finish_deactivation(outcomes)
            }
        },
        Platform::Other => ServiceStep::Fail(
            "service management is not supported on this platform".to_owned(),
        ),
    }
}

/// The step that follows these outcomes while a service is restarted.
pub open spec fn restart_step(platform: Platform, uid: u32, outcomes: Seq<CommandOutcome>) -> ServiceStepModel {
    if platform == Platform::Other {
        ServiceStepModel::Fail(unsupported())
    } else if outcomes.len() == 0 {
        ServiceStepModel::Run(
            if platform == Platform::MacOs {
                seq!["launchctl"@, "kickstart"@, "-k"@, gui_target(uid) + "/com.cue-shell.cued"@]
            } else {
                seq!["systemctl"@, "--user"@, "restart"@, "cued"@]
            },
        )
    } else if outcomes[0].success {
        ServiceStepModel::Done
    } else {
        ServiceStepModel::Fail(outcomes[0].summary@)
    }
}

/// Restarts the managed service, step by step.
pub fn restart(platform: Platform, uid: u32, outcomes: &Vec<CommandOutcome>) -> (r: ServiceStep)
    ensures
        r@ == restart_step(platform, uid, outcomes@),
{
    if platform == Platform::Other {
        return ServiceStep::Fail(
            "service management is not supported on this platform".to_owned(),
        );
    }
    if outcomes.len() == 0 {
        if platform == Platform::MacOs {
            let service = text::concat3("gui/", text::decimal_u64(uid as u64).as_str(), "/com.cue-shell.cued");
            ServiceStep::Run(
                text::texts4("launchctl".to_owned(), "kickstart".to_owned(), "-k".to_owned(), service),
            )
        } else {
            ServiceStep::Run(
                text::texts4(
                    "systemctl".to_owned(),
                    "--user".to_owned(),
                    "restart".to_owned(),
                    "cued".to_owned(),
                ),
            )
        }
    } else if outcomes[0].success {
        ServiceStep::Done
    } else {
        ServiceStep::Fail(outcomes[0].summary.clone())
    }
}

// ── Laws ──

/// Two commands at most decide: neither an activation nor a deactivation asks
/// for a third, and a deactivation on a supported platform never fails.
pub proof fn lemma_service_steps_end(
    platform: Platform,
    uid: u32,
    file: Text,
    outcomes: Seq<CommandOutcome>,
)
    requires
        outcomes.len() >= 2,
    ensures
        !(activate_step(platform, uid, file, outcomes) is Run),
        !(deactivate_step(platform, uid, file, outcomes) is Run),
        platform != Platform::Other ==> !(deactivate_step(platform, uid, file, outcomes) is Fail),
{
}

} // verus!
