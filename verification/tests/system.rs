use cue_shell::paths::{path_file_name, path_parent, path_strip_prefix, path_with_extension};
use cue_shell::replacement::{
    download_and_replace, replace_step, ReplaceState, ReplaceStep, Replacement, StepOutcome,
};
use cue_shell::runtime_env::{merge_snapshot_env, EnvSnapshot};
use cue_shell::service::{
    activate, deactivate, install, restart, service_file_content, service_file_path,
    CommandOutcome, Platform, ServiceStep,
};
use cue_shell::storage::migration::{migrate, MigrationStep, SCHEMA_VERSION};
use cue_shell::textmap::TextMap;
use cue_shell::word_expansion::{expand_command_line, expand_word, join_path};

fn done() -> CommandOutcome {
    CommandOutcome { success: true, summary: String::new() }
}

fn failed(summary: &str) -> CommandOutcome {
    CommandOutcome { success: false, summary: summary.to_string() }
}

#[test]
fn paths_are_taken_apart() {
    assert_eq!(path_parent("/usr/bin/cued"), Some("/usr/bin".to_string()));
    assert_eq!(path_parent("/"), None);
    assert_eq!(path_file_name("/usr/bin/cued"), Some("cued".to_string()));
    assert_eq!(path_file_name("/usr/.."), None);
    assert_eq!(path_with_extension("/opt/cued.old", "new"), "/opt/cued.new");
    assert_eq!(path_with_extension("/opt/cued", "new"), "/opt/cued.new");
    assert_eq!(path_strip_prefix("/home/a/b", "/home/a"), Some("b".to_string()));
    assert_eq!(path_strip_prefix("/home/ab", "/home/a"), None);
    assert_eq!(join_path("/home/a", "src"), "/home/a/src");
    assert_eq!(join_path("/home/a", "/etc"), "/etc");
}

#[test]
fn words_are_expanded() {
    let mut env = TextMap::new();
    env.insert("HOME".to_string(), "/home/a".to_string());
    env.insert("NAME".to_string(), "cue".to_string());
    let snapshot = EnvSnapshot { env, cwd: "/".to_string() };
    let expand = |word: &str| expand_word(word, Some(&snapshot));
    assert_eq!(expand("~"), "/home/a");
    assert_eq!(expand("~/src"), "/home/a/src");
    assert_eq!(expand("a~"), "a~");
    assert_eq!(expand("$NAME-${NAME}!"), "cue-cue!");
    assert_eq!(expand("$MISSING."), ".");
    assert_eq!(expand("\\$NAME"), "$NAME");
    assert_eq!(expand("${NAME"), "${NAME");
    assert_eq!(expand("${1x}"), "${1x}");
    assert_eq!(expand("5$"), "5$");
    assert_eq!(expand("plain"), "plain");
    assert_eq!(expand_word("~/$X", None), "~/");
    let line = vec!["echo".to_string(), "$NAME".to_string()];
    assert_eq!(expand_command_line(&line, Some(&snapshot)), vec!["echo", "cue"]);
}

#[test]
fn merging_an_environment_twice_changes_nothing() {
    let mut env = TextMap::new();
    env.insert("PATH".to_string(), "/a:/b".to_string());
    let mut ambient = TextMap::new();
    ambient.insert("PATH".to_string(), "/c:/a".to_string());
    ambient.insert("TERM".to_string(), "xterm".to_string());
    let once = merge_snapshot_env(&EnvSnapshot { env, cwd: "/".to_string() }, &ambient);
    let again =
        merge_snapshot_env(&EnvSnapshot { env: once.copy(), cwd: "/".to_string() }, &ambient);
    assert_eq!(once.get("PATH").map(String::as_str), Some("/a:/b:/c"));
    assert_eq!(again, once);
}

#[test]
fn service_files_are_written_for_each_platform() {
    assert_eq!(
        service_file_path(Platform::Linux, "/home/a"),
        "/home/a/.config/systemd/user/cued.service"
    );
    assert_eq!(
        service_file_path(Platform::MacOs, "/Users/a"),
        "/Users/a/Library/LaunchAgents/com.cue-shell.cued.plist"
    );
    let unit = service_file_content(Platform::Linux, "/usr/bin/cued", "/tmp/log").unwrap();
    assert!(unit.contains("ExecStart=/usr/bin/cued start --fg\n"));
    assert!(unit.contains("Restart=on-failure\n"));
    let plist = service_file_content(Platform::MacOs, "/usr/bin/cued", "/tmp/log").unwrap();
    assert!(plist.contains("<string>/usr/bin/cued</string>"));
    assert!(plist.contains("<string>/tmp/log</string>"));
    assert_eq!(
        service_file_content(Platform::Other, "/usr/bin/cued", "/tmp/log").unwrap_err(),
        "service management is not supported on this platform"
    );
    let plan = install(Platform::Linux, "/home/a", "/usr/bin/cued", "/tmp/log").unwrap();
    assert_eq!(plan.dir.as_deref(), Some("/home/a/.config/systemd/user"));
    assert_eq!(plan.file, "/home/a/.config/systemd/user/cued.service");
    assert_eq!(plan.content, unit);
    assert!(install(Platform::Other, "/home/a", "/usr/bin/cued", "/tmp/log").is_err());
}

#[test]
fn service_steps_follow_what_came_of_the_commands() {
    let file = "/home/a/.config/systemd/user/cued.service";
    let mut outcomes = Vec::new();
    let step = activate(Platform::Linux, 501, file, &outcomes);
    assert!(matches!(step, ServiceStep::Run(argv) if argv == ["systemctl", "--user", "daemon-reload"]));
    outcomes.push(done());
    let step = activate(Platform::Linux, 501, file, &outcomes);
    assert!(matches!(step, ServiceStep::Run(argv) if argv[2] == "enable"));
    outcomes.push(done());
    assert!(matches!(activate(Platform::Linux, 501, file, &outcomes), ServiceStep::Done));

    let refused = activate(Platform::Linux, 501, file, &vec![failed("no bus")]);
    assert!(matches!(refused, ServiceStep::Fail(message) if message == "no bus"));

    let step = activate(Platform::MacOs, 501, "/x.plist", &vec![failed("old system")]);
    assert!(matches!(step, ServiceStep::Run(argv) if argv == ["launchctl", "load", "-w", "/x.plist"]));

    let removed = deactivate(Platform::Linux, 501, file, &vec![failed("gone"), done()]);
    assert!(matches!(removed, ServiceStep::DoneWithWarning(text) if text.contains("gone")));

    let step = restart(Platform::MacOs, 501, &Vec::new());
    assert!(matches!(step, ServiceStep::Run(argv) if argv[3] == "gui/501/com.cue-shell.cued"));
    assert!(matches!(restart(Platform::MacOs, 501, &vec![done()]), ServiceStep::Done));
}

#[test]
fn the_executable_is_replaced_last() {
    let plan = Replacement {
        url: "https://example.test/cued.tar.gz".into(),
        asset_name: "cued.tar.gz".into(),
        tmp_dir: "/tmp/up".into(),
        target: "/usr/bin/cued".into(),
    };
    let mut state = ReplaceState::Downloading;
    let mut steps = Vec::new();
    loop {
        let outcome = match replace_step(&plan, &state) {
            ReplaceStep::Run(argv) => {
                steps.push(argv[0].clone());
                StepOutcome::Ran(Ok(done()))
            }
            ReplaceStep::FindBinary(dir) => {
                assert_eq!(dir, "/tmp/up");
                steps.push("find".to_string());
                StepOutcome::Found(Ok("/tmp/up/cued".to_string()))
            }
            ReplaceStep::MakeExecutable(path) => {
                steps.push(format!("chmod {path}"));
                StepOutcome::Did(Ok(()))
            }
            ReplaceStep::Copy { from, to } => {
                steps.push(format!("copy {from} {to}"));
                StepOutcome::Did(Ok(()))
            }
            ReplaceStep::Rename { from, to } => {
                steps.push(format!("rename {from} {to}"));
                StepOutcome::Did(Ok(()))
            }
            ReplaceStep::Done => break,
            ReplaceStep::Fail(message) => panic!("{message}"),
        };
        state = download_and_replace(&plan, state, outcome).expect("step");
    }
    assert_eq!(
        steps,
        vec![
            "curl",
            "tar",
            "find",
            "chmod /tmp/up/cued",
            "copy /tmp/up/cued /usr/bin/cued.new",
            "chmod /usr/bin/cued.new",
            "rename /usr/bin/cued.new /usr/bin/cued",
        ]
    );
    let refused =
        download_and_replace(&plan, ReplaceState::Downloading, StepOutcome::Ran(Ok(failed("404"))));
    assert_eq!(refused.unwrap_err(), "download release asset failed\n404");
}

#[test]
fn migrations_lead_to_the_current_version() {
    let steps = migrate(0).expect("migrate a new database");
    assert!(matches!(steps.last(), Some(MigrationStep::SetVersion(v)) if *v == SCHEMA_VERSION));
    assert!(migrate(SCHEMA_VERSION).expect("current").is_empty());
    let versions: Vec<u32> = migrate(11)
        .expect("migrate an older database")
        .iter()
        .filter_map(|step| match step {
            MigrationStep::SetVersion(v) => Some(*v),
            MigrationStep::Execute { .. } => None,
        })
        .collect();
    assert_eq!(versions, vec![12, 13, 14]);
    assert!(migrate(SCHEMA_VERSION + 1).is_err());
}
