use cue_shell::mode::Mode;
use cue_shell::tui::ipc::Stream;
use cue_shell::tui::submission::{
    decorate_output, display_request_from_submission, format_ack_message, normalize_command_label,
    operator_spacing_warnings, parse_local_command, pending_display_subscription_requests,
    DisplayRequest, LocalCommand, PendingSubmission,
};

#[test]
fn pending_submission_classifiers_expose_only_matching_intents() {
    let subscribe = PendingSubmission::display_subscribe("J1".into());
    let unsubscribe = PendingSubmission::display_unsubscribe("J2".into());
    let silent = PendingSubmission::silent_request("snapshot");
    let user = PendingSubmission::user(None, ":jobs".into(), Mode::Job, Vec::new());

    assert_eq!(subscribe.display_subscribe_id(), Some("J1"));
    assert_eq!(subscribe.display_unsubscribe_id(), None);
    assert_eq!(unsubscribe.display_unsubscribe_id(), Some("J2"));
    assert_eq!(silent.silent_description(), Some("snapshot"));
    assert!(user.is_user_visible());
    assert_eq!(user.silent_description(), None);
}

#[test]
fn pending_subscription_requests_collect_display_intents() {
    let pending = vec![
        PendingSubmission::display_subscribe("J1".into()),
        PendingSubmission::display_unsubscribe("J2".into()),
        PendingSubmission::silent_request("snapshot"),
        PendingSubmission::user(None, ":jobs".into(), Mode::Job, Vec::new()),
    ];

    let (subscribes, unsubscribes) = pending_display_subscription_requests(&pending);

    assert_eq!(subscribes, vec!["J1".to_string()]);
    assert_eq!(unsubscribes, vec!["J2".to_string()]);
    assert!(pending[3].is_user_visible());
}

#[test]
fn parses_local_commands() {
    assert_eq!(parse_local_command(" :clear "), Some(LocalCommand::Clear));
    assert_eq!(parse_local_command(":exit"), Some(LocalCommand::Quit));
    assert_eq!(parse_local_command(":restart"), Some(LocalCommand::Restart));
    assert_eq!(parse_local_command(":run echo hi"), None);
}

#[test]
fn display_request_requires_colon_in_job_mode() {
    assert_eq!(display_request_from_submission("out J1", Mode::Job), None);
    assert_eq!(
        display_request_from_submission(":tail J1", Mode::Job),
        Some(DisplayRequest {
            stream: Stream::Stdout,
            follow: true,
        })
    );
    assert_eq!(
        display_request_from_submission(":err J1", Mode::Cron),
        Some(DisplayRequest {
            stream: Stream::Stderr,
            follow: false,
        })
    );
}

#[test]
fn operator_spacing_warnings_ignore_quoted_operators() {
    assert!(operator_spacing_warnings(r#"echo "a->b""#).is_empty());
    let warnings = operator_spacing_warnings("sleep 4->ls");
    assert_eq!(warnings.len(), 1);
    assert!(warnings[0].contains("sleep 4 -> ls"));
}

#[test]
fn decorate_output_combines_warnings_and_body() {
    assert_eq!(decorate_output(&Vec::new(), "ok".into()), "ok");
    assert_eq!(
        decorate_output(&vec!["warn one".into(), "warn two".into()], String::new()),
        "warn one\nwarn two"
    );
    assert_eq!(decorate_output(&vec!["warn".into()], "ok".into()), "warn\n\nok");
}

#[test]
fn ack_messages_describe_targeted_commands() {
    assert_eq!(format_ack_message(":kill J1"), "kill requested for J1");
    assert_eq!(format_ack_message(":send J1 hi"), "sent J1 hi");
    assert_eq!(format_ack_message(":jobs"), "ok");
}

#[test]
fn command_labels_strip_explicit_run_and_cron_prefixes() {
    assert_eq!(normalize_command_label(":run cargo test"), "cargo test");
    assert_eq!(
        normalize_command_label(":cron every 5m cargo test"),
        "every 5m cargo test"
    );
    assert_eq!(normalize_command_label(":out J1"), ":out J1");
}
