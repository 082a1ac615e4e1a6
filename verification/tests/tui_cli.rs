use cue_shell::tui::cli::{
    parse_command, ssh_install_hint, validate_transport_with_lookup, ResolvedTransport, TuiCommand,
};

#[test]
fn ssh_transport_without_ssh_shows_install_hint() {
    let error = validate_transport_with_lookup(
        &ResolvedTransport::Ssh {
            profile_name: "remote".into(),
            destination: "devbox".into(),
            gateway_command: "cued gateway --stdio".into(),
            start_command: "cued start".into(),
        },
        false,
    )
    .expect_err("missing ssh should fail");

    let message = error;
    assert!(message.contains("OpenSSH `ssh` was not found in PATH"));
    assert!(message.contains("brew install openssh"));
    assert!(message.contains("sudo apt install openssh-client"));
}

#[test]
fn ssh_transport_rejects_empty_gateway_command() {
    let error = validate_transport_with_lookup(
        &ResolvedTransport::Ssh {
            profile_name: "remote".into(),
            destination: "devbox".into(),
            gateway_command: String::new(),
            start_command: "cued start".into(),
        },
        true,
    )
    .expect_err("empty gateway command should fail");

    assert!(error.contains("empty `gateway_command`"));
}

#[test]
fn a_unix_transport_needs_no_ssh() {
    let transport = ResolvedTransport::Unix {
        profile_name: "local".into(),
        socket_path: "/tmp/cue.sock".into(),
    };
    assert!(validate_transport_with_lookup(&transport, false).is_ok());
    assert!(ssh_install_hint("remote").contains("remote"));
}

#[test]
fn arguments_select_the_command() {
    let args = |list: &[&str]| -> Vec<Option<String>> {
        list.iter().map(|arg| Some(arg.to_string())).collect()
    };
    assert!(matches!(parse_command(&args(&[])), Ok(TuiCommand::Run)));
    assert!(matches!(parse_command(&args(&["--help"])), Ok(TuiCommand::Help)));
    assert!(matches!(parse_command(&args(&["--version"])), Ok(TuiCommand::Version)));
    assert!(parse_command(&args(&["--nope"])).is_err());
}
