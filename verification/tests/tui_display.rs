use cue_shell::resource::types::JobId;
use cue_shell::tui::display::{
    display_stream_from_ipc, output_channel_for_job_id, plan_display_subscriptions, DisplayPane,
    DisplayPreview, DisplayStream, DisplaySubscriptionPlan, DisplayTabHit, EventChannel,
};
use cue_shell::tui::geometry::Rect;
use cue_shell::tui::ipc::Stream;

#[test]
fn display_stream_maps_ipc_streams() {
    assert_eq!(
        display_stream_from_ipc(Stream::Stdout),
        DisplayStream::Stdout
    );
    assert_eq!(
        display_stream_from_ipc(Stream::Stderr),
        DisplayStream::Stderr
    );
}

#[test]
fn output_subscription_channel_requires_job_id() {
    assert_eq!(
        output_channel_for_job_id("J7"),
        Some(EventChannel::Output(JobId(7)))
    );
    assert!(output_channel_for_job_id("C7").is_none());
}

#[test]
fn subscription_plan_skips_pending_requests() {
    let plan = plan_display_subscriptions(
        &vec!["J1".to_string(), "J2".to_string()],
        &vec!["J2".to_string(), "J3".to_string()],
        &vec!["J1".to_string()],
        &vec!["J3".to_string()],
    );

    assert_eq!(
        plan,
        DisplaySubscriptionPlan {
            subscribe: Vec::new(),
            unsubscribe: Vec::new(),
        }
    );
}

#[test]
fn subscription_plan_emits_missing_subscribe_and_stale_unsubscribe() {
    let plan = plan_display_subscriptions(
        &vec!["J1".to_string()],
        &vec!["J2".to_string()],
        &Vec::new(),
        &Vec::new(),
    );

    assert_eq!(
        plan,
        DisplaySubscriptionPlan {
            subscribe: vec!["J1".to_string()],
            unsubscribe: vec!["J2".to_string()],
        }
    );
}

#[test]
fn output_tabs_label_following_state() {
    let mut pane = DisplayPane::new();
    pane.show_output(
        "J1".into(),
        DisplayStream::Stdout,
        "one".into(),
        false,
        true,
    );

    assert_eq!(pane.labels(), vec![" follow stdout J1  × ".to_string()]);
    assert_eq!(
        pane.desired_subscriptions(),
        vec!["J1".to_string()]
    );
}

#[test]
fn disable_follow_updates_subscription_intent() {
    let mut pane = DisplayPane::new();
    pane.show_output(
        "J1".into(),
        DisplayStream::Stdout,
        "one".into(),
        false,
        true,
    );

    assert!(pane.disable_follow("J1"));
    assert!(pane.desired_subscriptions().is_empty());
    assert_eq!(pane.labels(), vec![" stdout J1  × ".to_string()]);
}

#[test]
fn preview_tab_is_reused_by_key_and_title() {
    let mut pane = DisplayPane::new();
    pane.open_preview(DisplayPreview::new("card:1", "record", "old"));
    pane.open_preview(DisplayPreview::new("card:1", "record", "new"));

    assert_eq!(pane.labels(), vec![" record  × ".to_string()]);
    assert_eq!(pane.content(), "new");
}

#[test]
fn appends_only_matching_follow_output() {
    let mut pane = DisplayPane::new();
    pane.show_output(
        "J1".into(),
        DisplayStream::Stdout,
        "one\n".into(),
        false,
        true,
    );
    pane.show_output(
        "J2".into(),
        DisplayStream::Stdout,
        "two\n".into(),
        false,
        false,
    );

    pane.append_output("J1", Stream::Stdout, "followed\n");
    pane.append_output("J1", Stream::Stderr, "ignored\n");

    pane.activate(0);
    assert_eq!(pane.content(), "one\nfollowed\n");
    pane.activate(1);
    assert_eq!(pane.content(), "two\n");
}

#[test]
fn closing_active_tab_selects_next_available_tab() {
    let mut pane = DisplayPane::new();
    pane.show_output(
        "J1".into(),
        DisplayStream::Stdout,
        "one".into(),
        false,
        false,
    );
    pane.show_output(
        "J2".into(),
        DisplayStream::Stdout,
        "two".into(),
        false,
        false,
    );
    pane.activate(0);

    assert!(pane.close(0));

    assert_eq!(pane.active(), Some(0));
    assert_eq!(pane.content(), "two");
}

#[test]
fn tab_hit_distinguishes_activation_and_close_region() {
    let mut pane = DisplayPane::new();
    pane.show_output(
        "J1".into(),
        DisplayStream::Stdout,
        "one".into(),
        false,
        false,
    );
    let area = Rect::new(0, 0, 30, 5);

    assert_eq!(
        pane.hit(area, Rect::new(2, 1, 1, 1)),
        Some(DisplayTabHit::Activate(0))
    );
    assert_eq!(
        pane.hit(area, Rect::new(13, 1, 1, 1)),
        Some(DisplayTabHit::Close(0))
    );
}
