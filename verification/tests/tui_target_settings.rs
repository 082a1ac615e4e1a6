use cue_shell::tui::geometry::Rect;
use cue_shell::tui::target_config::{
    TargetProfileKind, TargetProfileSource, TargetProfileSummary, TargetSettingsSnapshot,
};
use cue_shell::tui::target_settings::{
    format_target_settings_view, saved_target_profile_feedback, target_profile_supports_live_reconnect,
    target_settings_content_rect, target_settings_footer_text, target_settings_modal_footer_text,
    target_settings_popup_rect, target_settings_profile_hit, TargetProfileSaveAction,
    TargetProfileSaveFeedback, TargetSettingsState, TargetSettingsView,
};

fn test_profile(
    name: &str,
    transport: TargetProfileKind,
    detail: &str,
    source: TargetProfileSource,
) -> TargetProfileSummary {
    TargetProfileSummary {
        name: name.into(),
        transport,
        detail: detail.into(),
        source,
    }
}

fn test_snapshot(
    path: &str,
    default_profile: &str,
    profiles: Vec<TargetProfileSummary>,
) -> TargetSettingsSnapshot {
    TargetSettingsSnapshot {
        source_path: path.into(),
        using_legacy_config: false,
        auto_detect_ssh: true,
        default_profile: default_profile.into(),
        profiles,
    }
}

#[test]
fn target_settings_modal_rects_share_popup_and_content_geometry() {
    let popup = target_settings_popup_rect(Rect::new(0, 0, 100, 50));

    assert_eq!(popup, Rect::new(9, 6, 82, 39));
    assert_eq!(
        target_settings_content_rect(popup),
        Rect::new(10, 7, 80, 37)
    );
}

#[test]
fn target_settings_footer_mentions_available_actions() {
    let plain = target_settings_footer_text(false, false);
    let actionable = target_settings_footer_text(true, true);

    assert!(!plain.contains("Enter save default"));
    assert!(!plain.contains("R reconnect now"));
    assert!(actionable.contains("Enter save default"));
    assert!(actionable.contains("R reconnect now"));
}

#[test]
fn target_settings_modal_footer_mentions_available_action() {
    assert_eq!(
        target_settings_modal_footer_text(true),
        " Enter save   Ctrl+R reload   Esc close "
    );
    assert_eq!(
        target_settings_modal_footer_text(false),
        " Ctrl+R reload   Esc close "
    );
}

#[test]
fn target_settings_profile_hit_maps_profile_rows_only() {
    let view = TargetSettingsView {
        content: String::new(),
        profile_line_rows: vec![2, 4],
    };
    let content_area = Rect::new(10, 20, 40, 10);

    assert_eq!(
        target_settings_profile_hit(&view, content_area, Rect::new(12, 22, 1, 1)),
        Some(0)
    );
    assert_eq!(
        target_settings_profile_hit(&view, content_area, Rect::new(12, 24, 1, 1)),
        Some(1)
    );
    assert_eq!(
        target_settings_profile_hit(&view, content_area, Rect::new(12, 23, 1, 1)),
        None
    );
    assert_eq!(
        target_settings_profile_hit(&view, content_area, Rect::new(9, 22, 1, 1)),
        None
    );
}

#[test]
fn ssh_target_profile_supports_live_reconnect_without_alerts() {
    let profile = test_profile(
        "remote",
        TargetProfileKind::Ssh,
        "devbox | cued gateway --stdio",
        TargetProfileSource::Configured,
    );

    assert!(target_profile_supports_live_reconnect(&profile));
    let state =
        TargetSettingsState::new(test_snapshot("/tmp/client.toml", "remote", vec![profile]));
    let view = format_target_settings_view(&state, Some("local"), None);

    assert!(view.content.contains("> remote (ssh)"));
    assert!(!view.content.contains("invalid"));
    assert!(!view.content.contains("missing"));
}

#[test]
fn missing_target_profiles_are_marked_in_profile_tags() {
    let state = TargetSettingsState::new(test_snapshot(
        "/tmp/client.toml",
        "remote",
        vec![test_profile(
            "remote",
            TargetProfileKind::Missing,
            "profile is referenced by default_profile but not defined",
            TargetProfileSource::Missing,
        )],
    ));

    let view = format_target_settings_view(&state, Some("local"), None);

    assert!(view.content.contains("[default, selected, missing]"));
}

#[test]
fn selected_profile_save_rule_requires_usable_target() {
    let state = TargetSettingsState::new(test_snapshot(
        "/tmp/client.toml",
        "remote",
        vec![test_profile(
            "remote",
            TargetProfileKind::Missing,
            "profile is referenced by default_profile but not defined",
            TargetProfileSource::Missing,
        )],
    ));
    assert!(!state.selected_profile_can_be_saved());

    let state = TargetSettingsState::new(test_snapshot(
        "/tmp/client.toml",
        "local",
        vec![test_profile(
            "local",
            TargetProfileKind::Unix,
            "unix:///tmp/cue.sock",
            TargetProfileSource::Configured,
        )],
    ));
    assert!(state.selected_profile_can_be_saved());
}

#[test]
fn selected_profile_save_action_distinguishes_notice_and_save() {
    let missing = TargetSettingsState::new(test_snapshot(
        "/tmp/client.toml",
        "remote",
        vec![test_profile(
            "remote",
            TargetProfileKind::Missing,
            "profile is referenced by default_profile but not defined",
            TargetProfileSource::Missing,
        )],
    ));
    assert!(matches!(
        missing.selected_profile_save_action(),
        Some(TargetProfileSaveAction::Notice(notice))
            if notice.contains("not a usable target profile")
    ));

    let already_default = TargetSettingsState::new(test_snapshot(
        "/tmp/client.toml",
        "local",
        vec![test_profile(
            "local",
            TargetProfileKind::Unix,
            "unix:///tmp/cue.sock",
            TargetProfileSource::Configured,
        )],
    ));
    assert!(matches!(
        already_default.selected_profile_save_action(),
        Some(TargetProfileSaveAction::Notice(notice))
            if notice.contains("already the default target")
    ));

    let mut can_save = TargetSettingsState::new(test_snapshot(
        "/tmp/client.toml",
        "local",
        vec![
            test_profile(
                "local",
                TargetProfileKind::Unix,
                "unix:///tmp/cue.sock",
                TargetProfileSource::Configured,
            ),
            test_profile(
                "remote",
                TargetProfileKind::Ssh,
                "devbox | cued gateway --stdio",
                TargetProfileSource::Configured,
            ),
        ],
    ));
    can_save.select_profile_name("remote");
    assert!(matches!(
        can_save.selected_profile_save_action(),
        Some(TargetProfileSaveAction::Save { profile_name, .. }) if profile_name == "remote"
    ));
}

#[test]
fn notice_helpers_control_pending_reconnect_state() {
    let snapshot = test_snapshot("/tmp/client.toml", "remote", Vec::new());
    let feedback = TargetProfileSaveFeedback {
        notice: "saved".into(),
        pending_reconnect: true,
    };
    let mut state = TargetSettingsState::with_save_feedback(snapshot, "remote", feedback);

    assert_eq!(state.pending_reconnect_profile_name(), Some("remote"));
    assert!(state.has_pending_reconnect());

    state.set_notice("saved again");

    assert_eq!(state.notice(), Some("saved again"));
    assert_eq!(state.pending_reconnect_profile_name(), Some("remote"));
    assert!(state.has_pending_reconnect());

    state.set_notice_without_pending_reconnect("reconnecting");

    assert_eq!(state.notice(), Some("reconnecting"));
    assert_eq!(state.pending_reconnect_profile_name(), None);
    assert!(!state.has_pending_reconnect());
}

#[test]
fn saved_target_profile_feedback_offers_live_reconnect_when_session_differs() {
    let snapshot = test_snapshot("/tmp/client.toml", "remote", Vec::new());

    let feedback = saved_target_profile_feedback(&snapshot, "remote", Some("local"), true, None);

    assert!(
        feedback
            .notice
            .contains("current session still uses `local`")
    );
    assert!(feedback.notice.contains("Press R to reconnect now"));
    assert!(feedback.pending_reconnect);
}

#[test]
fn saved_target_profile_feedback_does_not_reconnect_current_session_target() {
    let snapshot = test_snapshot("/tmp/client.toml", "remote", Vec::new());

    let feedback = saved_target_profile_feedback(&snapshot, "remote", Some("remote"), true, None);

    assert!(feedback.notice.contains("current session already uses it"));
    assert!(!feedback.pending_reconnect);
}

#[test]
fn saved_target_profile_feedback_handles_sessions_without_live_reconnect() {
    let snapshot = test_snapshot("/tmp/client.toml", "remote", Vec::new());

    let feedback = saved_target_profile_feedback(&snapshot, "remote", Some("local"), false, None);

    assert!(feedback.notice.contains("until reconnect/restart"));
    assert!(!feedback.pending_reconnect);
}
