use cue_shell::cron::CronStatus;
use cue_shell::job::JobStatus;
use cue_shell::mode::Mode;
use cue_shell::tui::app::rows::{CronRow, JobRow};
use cue_shell::tui::app::state::{AppState, Effect};
use cue_shell::tui::app::update::AppMsg;
use cue_shell::tui::completion::DirectoryEntry;
use cue_shell::tui::display::DisplayStream;
use cue_shell::tui::foreground::{key_bytes, paste_bytes};
use cue_shell::tui::geometry::Rect;
use cue_shell::tui::ipc::{
    ChainInfo, EventPayload, JobInfo, JobOpenHint, OkPayload, RequestPayload, ResponsePayload,
    Stream, WriterHandle,
};
use cue_shell::tui::keys::{KeyCode, KeyEvent, KeyModifiers, MouseEvent, MouseEventKind};
use cue_shell::tui::main_view::CardStatus;
use cue_shell::tui::message::FocusArea;
use cue_shell::tui::run_loop::after_message;
use cue_shell::tui::submission::PendingSubmission;
use cue_shell::tui::target_config::{
    TargetProfileKind, TargetProfileSource, TargetProfileSummary, TargetSettingsSnapshot,
};
use cue_shell::tui::target_settings::{
    format_target_settings_view, target_settings_content_rect, target_settings_popup_rect,
    TargetSettingsState,
};

fn queue_pending(state: &mut AppState, id: u32, pending: PendingSubmission) {
    state.pending_submissions.insert(id, pending);
}

fn test_target_profile(
    name: &str,
    transport: &str,
    detail: &str,
    source: TargetProfileSource,
) -> TargetProfileSummary {
    let transport = match transport {
        "unix" => TargetProfileKind::Unix,
        "ssh" => TargetProfileKind::Ssh,
        "missing" => TargetProfileKind::Missing,
        other => TargetProfileKind::Unsupported(other.to_string()),
    };
    TargetProfileSummary { name: name.into(), transport, detail: detail.into(), source }
}

fn test_target_snapshot(
    path: &str,
    default_profile: &str,
    profiles: Vec<TargetProfileSummary>,
) -> TargetSettingsSnapshot {
    TargetSettingsSnapshot {
        source_path: path.into(),
        using_legacy_config: false,
        auto_detect_ssh: true,
        default_profile: default_profile.into(),
        profiles,
    }
}

/// Answers a request to list `src` with the files of a small project.
fn list_sources(state: &mut AppState) {
    for effect in state.take_effects() {
        if let Effect::ListDirectory { base_dir, .. } = effect {
            assert_eq!(base_dir, "src");
            let entries = ["app.rs", "cli.rs", "lib.rs"]
                .iter()
                .map(|name| DirectoryEntry { name: name.to_string(), is_dir: false })
                .collect();
            state.update(AppMsg::DirectoryListed { entries, commands: Vec::new() });
        }
    }
}

#[test]
fn job_created_response_shows_job_id_not_stdout() {
    let mut state = AppState::new();
    let card_index = state.main_view.push_card("sleep 4".into(), Mode::Job);
    queue_pending(
        &mut state,
        1,
        PendingSubmission::user(Some(card_index), "sleep 4".into(), Mode::Job, Vec::new()),
    );
    state.update(AppMsg::Response {
        id: 1,
        payload: ResponsePayload::Success(OkPayload::JobCreated {
            job_id: "J1".into(),
            start_scope: Some("S@abc12345".into()),
            open_hint: JobOpenHint::Stream,
            chain_id: None,
            chain_index: None,
            chain_total: None,
        }),
    });

    let card = state.main_view.cards.last().unwrap();
    assert_eq!(card.label.as_deref(), Some("J1"));
    assert_eq!(card.output, "J1\nstatus: running\nstart scope: S@abc12345");
    assert_eq!(card.status, CardStatus::Streaming);
    assert_eq!(state.jobs.len(), 1);
    assert_eq!(state.jobs[0].label, "sleep 4");
}

#[test]
fn job_created_without_precreated_card_opens_command_log_record() {
    let mut state = AppState::new();
    queue_pending(
        &mut state,
        1,
        PendingSubmission::user(None, "sleep 4".into(), Mode::Job, Vec::new()),
    );
    state.update(AppMsg::Response {
        id: 1,
        payload: ResponsePayload::Success(OkPayload::JobCreated {
            job_id: "J1".into(),
            start_scope: Some("S@abc12345".into()),
            open_hint: JobOpenHint::Stream,
            chain_id: None,
            chain_index: None,
            chain_total: None,
        }),
    });

    assert_eq!(state.main_view.cards.len(), 1);
    assert_eq!(
        state.main_view.cards[0].output,
        "J1\nstatus: running\nstart scope: S@abc12345"
    );
    assert_eq!(state.jobs.len(), 1);
    assert_eq!(state.jobs[0].label, "sleep 4");
}

#[test]
fn output_events_do_not_overwrite_run_card() {
    let mut state = AppState::new();
    let card_index = state.main_view.push_card("ls".into(), Mode::Job);
    queue_pending(
        &mut state,
        1,
        PendingSubmission::user(Some(card_index), "ls".into(), Mode::Job, Vec::new()),
    );
    state.update(AppMsg::Response {
        id: 1,
        payload: ResponsePayload::Success(OkPayload::JobCreated {
            job_id: "J1".into(),
            start_scope: Some("S@abc12345".into()),
            open_hint: JobOpenHint::Stream,
            chain_id: None,
            chain_index: None,
            chain_total: None,
        }),
    });
    state.update(AppMsg::ServerEvent(EventPayload::OutputChunk {
        id: "J1".into(),
        stream: Stream::Stdout,
        data: "file.txt\n".into(),
    }));

    let card = state.main_view.cards.last().unwrap();
    assert_eq!(card.output, "J1\nstatus: running\nstart scope: S@abc12345");
}

#[test]
fn running_stream_job_sidebar_open_prefers_fg() {
    let mut state = AppState::new();
    state.jobs.push(JobRow {
        id: "J1".into(),
        label: "sleep 5".into(),
        status: JobStatus::Running,
        start_scope: None,
        end_scope: None,
        open_hint: JobOpenHint::Fg,
    });

    state.activate_sidebar_row(0);

    let card = state.main_view.cards.last().unwrap();
    assert_eq!(card.input, ":fg J1");
}

#[test]
fn finished_job_sidebar_open_uses_out() {
    let mut state = AppState::new();
    state.jobs.push(JobRow {
        id: "J1".into(),
        label: "cargo build".into(),
        status: JobStatus::Done,
        start_scope: None,
        end_scope: None,
        open_hint: JobOpenHint::Stream,
    });

    state.activate_sidebar_row(0);

    let card = state.main_view.cards.last().unwrap();
    assert_eq!(card.input, ":out J1");
}

#[test]
fn running_fg_job_sidebar_open_prefers_fg() {
    let mut state = AppState::new();
    state.jobs.push(JobRow {
        id: "J1".into(),
        label: "vim notes.txt".into(),
        status: JobStatus::Running,
        start_scope: None,
        end_scope: None,
        open_hint: JobOpenHint::Fg,
    });

    state.activate_sidebar_row(0);

    let card = state.main_view.cards.last().unwrap();
    assert_eq!(card.input, ":fg J1");
}

#[test]
fn output_response_without_precreated_card_opens_display_pane() {
    let mut state = AppState::new();
    queue_pending(
        &mut state,
        1,
        PendingSubmission::user(None, ":out J1".into(), Mode::Job, Vec::new()),
    );

    state.update(AppMsg::Response {
        id: 1,
        payload: ResponsePayload::Success(OkPayload::Output {
            id: "J1".into(),
            data: "hello\n".into(),
            truncated: false,
        }),
    });

    assert_eq!(state.main_view.cards.len(), 1);
    let card = state.main_view.cards.last().unwrap();
    assert_eq!(card.input, ":out J1");
    assert_eq!(card.output, "opened stdout for J1");
    assert_eq!(card.status, CardStatus::Success);
    assert_eq!(state.display_pane_title(), " Display ".to_string());
    assert_eq!(
        state.display_tab_labels(),
        vec![" stdout J1  × ".to_string()]
    );
    assert_eq!(state.display_pane_content(), "hello\n");
}

#[test]
fn tail_response_opens_following_stdout_tab() {
    let mut state = AppState::new();
    queue_pending(
        &mut state,
        1,
        PendingSubmission::user(None, ":tail J1".into(), Mode::Job, Vec::new()),
    );

    state.update(AppMsg::Response {
        id: 1,
        payload: ResponsePayload::Success(OkPayload::Output {
            id: "J1".into(),
            data: "hello\n".into(),
            truncated: false,
        }),
    });
    state.update(AppMsg::ServerEvent(EventPayload::OutputChunk {
        id: "J1".into(),
        stream: Stream::Stdout,
        data: "world\n".into(),
    }));

    let card = state.main_view.cards.last().unwrap();
    assert_eq!(card.output, "following stdout for J1");
    assert_eq!(
        state.display_tab_labels(),
        vec![" follow stdout J1  × ".to_string()]
    );
    assert_eq!(state.display_pane_content(), "hello\nworld\n");
}

#[test]
fn err_response_opens_stderr_tab() {
    let mut state = AppState::new();
    queue_pending(
        &mut state,
        1,
        PendingSubmission::user(None, ":err J1".into(), Mode::Job, Vec::new()),
    );

    state.update(AppMsg::Response {
        id: 1,
        payload: ResponsePayload::Success(OkPayload::Output {
            id: "J1".into(),
            data: "boom\n".into(),
            truncated: false,
        }),
    });

    assert_eq!(
        state.display_tab_labels(),
        vec![" stderr J1  × ".to_string()]
    );
    assert_eq!(state.display_pane_content(), "boom\n");
}

#[test]
fn scope_created_response_shows_summary_not_only_hash() {
    let mut state = AppState::new();
    let card_index = state.main_view.push_card(":cd /tmp".into(), Mode::Job);
    queue_pending(
        &mut state,
        1,
        PendingSubmission::user(Some(card_index), ":cd /tmp".into(), Mode::Job, Vec::new()),
    );

    state.update(AppMsg::Response {
        id: 1,
        payload: ResponsePayload::Success(OkPayload::ScopeCreated {
            hash: "S@abc12345".into(),
            label: Some("cd /tmp".into()),
            summary: "S@abc12345\ncwd: /old -> /tmp".into(),
        }),
    });

    let card = state.main_view.cards.last().unwrap();
    assert_eq!(card.label.as_deref(), Some("S@abc12345"));
    assert_eq!(card.output, "S@abc12345\ncwd: /old -> /tmp");
    assert_eq!(card.status, CardStatus::Success);
}

#[test]
fn streaming_output_appends_only_to_active_display_pane() {
    let mut state = AppState::new();
    state.show_output_display(
        "J1".into(),
        DisplayStream::Stdout,
        "hello\n".into(),
        false,
        true,
    );

    state.update(AppMsg::ServerEvent(EventPayload::OutputChunk {
        id: "J1".into(),
        stream: Stream::Stdout,
        data: "world\n".into(),
    }));
    state.update(AppMsg::ServerEvent(EventPayload::OutputChunk {
        id: "J2".into(),
        stream: Stream::Stdout,
        data: "ignored\n".into(),
    }));

    assert_eq!(state.display_pane_content(), "hello\nworld\n");
}

#[test]
fn clear_display_resets_upper_pane() {
    let mut state = AppState::new();
    state.show_output_display(
        "J1".into(),
        DisplayStream::Stdout,
        "hello\n".into(),
        false,
        false,
    );

    state.update(AppMsg::ClearDisplay);

    assert_eq!(state.display_pane_title(), " Display ".to_string());
    assert!(state.display_pane_content().contains("Use `:out J1`"));
}

#[test]
fn ctrl_c_opens_running_job_picker() {
    let mut state = AppState::new();
    state.jobs = vec![
        JobRow {
            id: "J1".into(),
            label: "sleep 1".into(),
            status: JobStatus::Done,
            start_scope: None,
            end_scope: None,
            open_hint: JobOpenHint::Stream,
        },
        JobRow {
            id: "J2".into(),
            label: "sleep 2".into(),
            status: JobStatus::Running,
            start_scope: None,
            end_scope: None,
            open_hint: JobOpenHint::Stream,
        },
    ];

    state.update(AppMsg::KeyEvent(KeyEvent::new(
        KeyCode::Char('c'),
        KeyModifiers::control(),
    )));

    assert!(state.job_picker_open());
    assert_eq!(state.job_picker_selected(), Some(0));
    assert_eq!(state.job_picker_items().len(), 1);
}

#[test]
fn ctrl_c_in_cron_mode_opens_remove_picker() {
    let mut state = AppState::new();
    state.mode = Mode::Cron;
    state.sync_mode_views();
    state.crons = vec![CronRow {
        id: "C1".into(),
        label: "every 5m cargo test".into(),
        status: CronStatus::Scheduled,
    }];

    state.update(AppMsg::KeyEvent(KeyEvent::new(
        KeyCode::Char('c'),
        KeyModifiers::control(),
    )));

    assert!(state.job_picker_open());
    assert_eq!(state.job_picker_selected(), Some(0));
    assert_eq!(state.job_picker_title(), "Crons");
    assert_eq!(state.job_picker_submit_label(), "remove");
    assert_eq!(state.job_picker_items()[0].id, "C1");
}

#[test]
fn ctrl_d_quits_tui() {
    let mut state = AppState::new();

    state.update(AppMsg::KeyEvent(KeyEvent::new(
        KeyCode::Char('d'),
        KeyModifiers::control(),
    )));

    assert!(state.should_quit);
}

#[test]
fn targets_footer_shows_target_controls() {
    let mut state = AppState::new();
    state.session_profile_name = Some("local".into());
    state.target_settings = Some(TargetSettingsState::new(test_target_snapshot(
        "/tmp/client.toml",
        "remote",
        vec![
            test_target_profile(
                "local",
                "unix",
                "socket: /tmp/cue.sock",
                TargetProfileSource::Local,
            ),
            test_target_profile(
                "remote",
                "ssh",
                "devbox | cued gateway --stdio",
                TargetProfileSource::Configured,
            ),
        ],
    )));
    state.focus = FocusArea::MainView;

    assert!(state.footer_text().contains("Enter save default"));
    assert!(state.footer_text().contains("Ctrl+R reload"));
    assert!(state.target_settings_content().is_some_and(|content| {
        content.contains("current session target: local")
            && content.contains("ssh auto-detection: enabled")
    }));
}

#[test]
fn targets_preview_keys_move_selection() {
    let mut state = AppState::new();
    state.target_settings = Some(TargetSettingsState::new(test_target_snapshot(
        "/tmp/client.toml",
        "local",
        vec![
            test_target_profile(
                "local",
                "unix",
                "socket: /tmp/cue.sock",
                TargetProfileSource::Local,
            ),
            test_target_profile(
                "remote",
                "ssh",
                "devbox | cued gateway --stdio",
                TargetProfileSource::Configured,
            ),
        ],
    )));
    state.focus = FocusArea::MainView;

    state.update(AppMsg::KeyEvent(KeyEvent::new(
        KeyCode::Down,
        KeyModifiers::none(),
    )));

    assert_eq!(
        state
            .target_settings
            .as_ref()
            .and_then(TargetSettingsState::selected_profile_name),
        Some("remote")
    );
}

#[test]
fn home_and_end_jump_target_selection() {
    let mut state = AppState::new();
    state.target_settings = Some(TargetSettingsState::new(test_target_snapshot(
        "/tmp/client.toml",
        "local",
        vec![
            test_target_profile(
                "local",
                "unix",
                "socket: /tmp/cue.sock",
                TargetProfileSource::Local,
            ),
            test_target_profile(
                "remote",
                "ssh",
                "devbox | cued gateway --stdio",
                TargetProfileSource::Configured,
            ),
            test_target_profile(
                "staging",
                "ssh",
                "stagebox | cued gateway --stdio",
                TargetProfileSource::AutoDetectedSsh,
            ),
        ],
    )));
    state.focus = FocusArea::MainView;

    state.update(AppMsg::KeyEvent(KeyEvent::new(
        KeyCode::End,
        KeyModifiers::none(),
    )));
    assert_eq!(
        state
            .target_settings
            .as_ref()
            .and_then(TargetSettingsState::selected_profile_name),
        Some("staging")
    );

    state.update(AppMsg::KeyEvent(KeyEvent::new(
        KeyCode::Home,
        KeyModifiers::none(),
    )));
    assert_eq!(
        state
            .target_settings
            .as_ref()
            .and_then(TargetSettingsState::selected_profile_name),
        Some("local")
    );
}

#[test]
fn enter_on_targets_preview_saves_default_profile() {
    let profiles = || {
        vec![
            test_target_profile(
                "local",
                "unix",
                "socket: /tmp/cue.sock",
                TargetProfileSource::Local,
            ),
            test_target_profile(
                "remote",
                "ssh",
                "devbox | cued gateway --stdio",
                TargetProfileSource::Configured,
            ),
        ]
    };
    let mut state = AppState::new();
    state.target_settings = Some(TargetSettingsState::new(test_target_snapshot(
        "/tmp/client.toml",
        "local",
        profiles(),
    )));
    state.focus = FocusArea::MainView;
    state.move_target_selection(1);

    state.update(AppMsg::KeyEvent(KeyEvent::new(KeyCode::Enter, KeyModifiers::none())));

    let effects = state.take_effects();
    assert_eq!(effects.len(), 1);
    assert!(matches!(
        &effects[0],
        Effect::SaveTarget { profile_name, snapshot }
            if profile_name == "remote" && snapshot.source_path == "/tmp/client.toml"
    ));
    state.update(AppMsg::TargetSaved {
        profile_name: "remote".into(),
        result: Ok(test_target_snapshot("/tmp/client.toml", "remote", profiles())),
    });

    assert_eq!(
        state.target_settings.as_ref().map(TargetSettingsState::default_profile_name),
        Some("remote")
    );
}

#[test]
fn enter_on_existing_default_profile_shows_noop_notice() {
    let mut state = AppState::new();
    state.target_settings = Some(TargetSettingsState::new(test_target_snapshot(
        "/tmp/client.toml",
        "remote",
        vec![
            test_target_profile(
                "local",
                "unix",
                "socket: /tmp/cue.sock",
                TargetProfileSource::Local,
            ),
            test_target_profile(
                "remote",
                "ssh",
                "devbox | cued gateway --stdio",
                TargetProfileSource::Configured,
            ),
        ],
    )));
    state.focus = FocusArea::MainView;
    state.move_target_selection(1);

    state.update(AppMsg::KeyEvent(KeyEvent::new(
        KeyCode::Enter,
        KeyModifiers::none(),
    )));

    assert!(
        state
            .target_settings
            .as_ref()
            .and_then(TargetSettingsState::notice)
            .is_some_and(|notice| notice.contains("already the default target"))
    );
}

#[test]
fn saving_unix_profile_offers_live_reconnect() {
    let profiles = || {
        vec![
            test_target_profile(
                "local",
                "unix",
                "socket: /tmp/cue.sock",
                TargetProfileSource::Local,
            ),
            test_target_profile(
                "alt",
                "unix",
                "socket: /tmp/alt.sock",
                TargetProfileSource::Configured,
            ),
        ]
    };
    let mut state = AppState::new();
    state.set_can_reconnect(true);
    state.session_profile_name = Some("local".into());
    state.target_settings = Some(TargetSettingsState::new(test_target_snapshot(
        "/tmp/client.toml",
        "local",
        profiles(),
    )));
    state.focus = FocusArea::MainView;
    state.move_target_selection(1);

    state.update(AppMsg::KeyEvent(KeyEvent::new(KeyCode::Enter, KeyModifiers::none())));

    let effects = state.take_effects();
    assert_eq!(effects.len(), 1);
    assert!(matches!(
        &effects[0],
        Effect::SaveTarget { profile_name, snapshot }
            if profile_name == "alt" && snapshot.source_path == "/tmp/client.toml"
    ));
    state.update(AppMsg::TargetSaved {
        profile_name: "alt".into(),
        result: Ok(test_target_snapshot("/tmp/client.toml", "alt", profiles())),
    });

    assert!(state
        .target_settings
        .as_ref()
        .and_then(TargetSettingsState::notice)
        .is_some_and(|notice| notice.contains("Press R to reconnect now")));
    assert_eq!(
        state
            .target_settings
            .as_ref()
            .and_then(TargetSettingsState::pending_reconnect_profile_name),
        Some("alt")
    );
}

#[test]
fn saving_ssh_profile_reports_restart_only() {
    let profiles = || {
        vec![
            test_target_profile(
                "local",
                "unix",
                "socket: /tmp/cue.sock",
                TargetProfileSource::Local,
            ),
            test_target_profile(
                "remote",
                "ssh",
                "devbox | cued gateway --stdio",
                TargetProfileSource::Configured,
            ),
        ]
    };
    let mut state = AppState::new();
    state.session_profile_name = Some("local".into());
    state.target_settings = Some(TargetSettingsState::new(test_target_snapshot(
        "/tmp/client.toml",
        "local",
        profiles(),
    )));
    state.focus = FocusArea::MainView;
    state.move_target_selection(1);

    state.update(AppMsg::KeyEvent(KeyEvent::new(KeyCode::Enter, KeyModifiers::none())));

    let effects = state.take_effects();
    assert_eq!(effects.len(), 1);
    assert!(matches!(
        &effects[0],
        Effect::SaveTarget { profile_name, snapshot }
            if profile_name == "remote" && snapshot.source_path == "/tmp/client.toml"
    ));
    state.update(AppMsg::TargetSaved {
        profile_name: "remote".into(),
        result: Ok(test_target_snapshot("/tmp/client.toml", "remote", profiles())),
    });

    assert!(state
        .target_settings
        .as_ref()
        .and_then(TargetSettingsState::notice)
        .is_some_and(|notice| notice.contains("live reconnect is unsupported")));
    assert_eq!(
        state
            .target_settings
            .as_ref()
            .and_then(TargetSettingsState::pending_reconnect_profile_name),
        None
    );
}

#[test]
fn target_settings_mouse_click_selects_profile() {
    let mut state = AppState::new();
    state.target_settings = Some(TargetSettingsState::new(test_target_snapshot(
        "/tmp/client.toml",
        "local",
        vec![
            test_target_profile(
                "local",
                "unix",
                "socket: /tmp/cue.sock",
                TargetProfileSource::Local,
            ),
            test_target_profile(
                "remote",
                "ssh",
                "devbox | cued gateway --stdio",
                TargetProfileSource::Configured,
            ),
        ],
    )));
    state.focus = FocusArea::MainView;

    let content_area = target_settings_content_rect(target_settings_popup_rect(Rect::new(
        0,
        0,
        state.terminal_width,
        state.terminal_height,
    )));
    let view = state.render_target_settings_view().unwrap();
    let remote_line = view.profile_line_rows[1] as u16;

    state.update(AppMsg::MouseEvent(MouseEvent {
        kind: MouseEventKind::LeftDown,
        column: content_area.x.saturating_add(1),
        row: content_area.y.saturating_add(remote_line),
    }));

    assert_eq!(
        state
            .target_settings
            .as_ref()
            .and_then(TargetSettingsState::selected_profile_name),
        Some("remote")
    );
}

#[test]
fn target_settings_click_outside_modal_closes() {
    let mut state = AppState::new();
    state.target_settings = Some(TargetSettingsState::new(test_target_snapshot(
        "/tmp/client.toml",
        "local",
        vec![test_target_profile(
            "local",
            "unix",
            "socket: /tmp/cue.sock",
            TargetProfileSource::Local,
        )],
    )));

    state.update(AppMsg::MouseEvent(MouseEvent {
        kind: MouseEventKind::LeftDown,
        column: 0,
        row: 0,
    }));

    assert!(!state.target_settings_open());
}

#[test]
fn target_settings_marks_missing_profiles() {
    let state = TargetSettingsState::new(test_target_snapshot(
        "/tmp/client.toml",
        "remote",
        vec![test_target_profile(
            "remote",
            "missing",
            "profile is referenced by default_profile but not defined",
            TargetProfileSource::Missing,
        )],
    ));

    let view = format_target_settings_view(&state, Some("local"), None);

    assert!(view.content.contains("[default, selected, missing]"));
}

#[test]
fn ctrl_t_toggles_targets_page_closed() {
    let mut state = AppState::new();
    state.target_settings = Some(TargetSettingsState::new(test_target_snapshot(
        "/tmp/client.toml",
        "local",
        vec![test_target_profile(
            "local",
            "unix",
            "socket: /tmp/cue.sock",
            TargetProfileSource::Local,
        )],
    )));
    state.focus = FocusArea::MainView;

    state.update(AppMsg::KeyEvent(KeyEvent::new(
        KeyCode::Char('t'),
        KeyModifiers::control(),
    )));

    assert!(!state.target_settings_open());
    assert!(state.target_settings.is_none());
}

#[test]
fn display_tabs_switch_and_close() {
    let mut state = AppState::new();
    state.show_output_display(
        "J1".into(),
        DisplayStream::Stdout,
        "one\n".into(),
        false,
        false,
    );
    state.show_output_display(
        "J2".into(),
        DisplayStream::Stdout,
        "two\n".into(),
        false,
        false,
    );

    assert_eq!(state.active_display_tab(), Some(1));
    assert_eq!(state.display_tab_labels().len(), 2);

    state.display.activate(0);
    assert_eq!(state.display_pane_content(), "one\n");

    state.close_display_tab(0);
    assert_eq!(
        state.display_tab_labels(),
        vec![" stdout J2  × ".to_string()]
    );
    assert_eq!(state.display_pane_content(), "two\n");
}

#[test]
fn copy_target_prefers_active_display_tab() {
    let mut state = AppState::new();
    state.show_output_display(
        "J1".into(),
        DisplayStream::Stdout,
        "hello\n".into(),
        false,
        false,
    );
    state.main_view.push_card("sleep 1".into(), Mode::Job);

    assert_eq!(
        state.copy_target(),
        Some(("stdout J1".to_string(), "hello\n".to_string()))
    );
}

#[test]
fn cron_sidebar_open_shows_preview_tab() {
    let mut state = AppState::new();
    state.mode = Mode::Cron;
    state.sync_mode_views();
    state.crons.push(CronRow {
        id: "C1".into(),
        label: "every 5m cargo test".into(),
        status: CronStatus::Scheduled,
    });

    state.activate_sidebar_row(0);

    assert_eq!(state.display_tab_labels(), vec![" cron C1  × ".to_string()]);
    assert!(state.display_pane_content().contains("every 5m cargo test"));
}

#[test]
fn sidebar_delete_removes_selected_cron() {
    let mut state = AppState::new();
    state.mode = Mode::Cron;
    state.sync_mode_views();
    state.crons.push(CronRow {
        id: "C1".into(),
        label: "every 5m cargo test".into(),
        status: CronStatus::Scheduled,
    });
    state.sync_sidebar_items();
    state.set_focus(FocusArea::Sidebar);
    state.sidebar.selected = Some(0);

    state.update(AppMsg::KeyEvent(KeyEvent::new(
        KeyCode::Backspace,
        KeyModifiers::none(),
    )));

    let card = state.main_view.cards.last().expect("kill card");
    assert_eq!(card.input, ":kill C1");
    assert_eq!(card.mode, Mode::Cron);
}

#[test]
fn opening_cron_from_sidebar_keeps_sidebar_focus() {
    let mut state = AppState::new();
    state.mode = Mode::Cron;
    state.sync_mode_views();
    state.crons.push(CronRow {
        id: "C1".into(),
        label: "every 5m cargo test".into(),
        status: CronStatus::Scheduled,
    });
    state.set_focus(FocusArea::Sidebar);

    state.activate_sidebar_row(0);

    assert_eq!(state.focus, FocusArea::Sidebar);
    assert_eq!(state.display_tab_labels(), vec![" cron C1  × ".to_string()]);
}

#[test]
fn delete_from_main_view_removes_selected_cron() {
    let mut state = AppState::new();
    state.mode = Mode::Cron;
    state.sync_mode_views();
    state.show_sidebar = Some(true);
    state.crons.push(CronRow {
        id: "C1".into(),
        label: "every 5m cargo test".into(),
        status: CronStatus::Scheduled,
    });
    state.sync_sidebar_items();
    state.sidebar.selected = Some(0);
    state.focus = FocusArea::MainView;

    state.update(AppMsg::KeyEvent(KeyEvent::new(
        KeyCode::Delete,
        KeyModifiers::none(),
    )));

    let card = state.main_view.cards.last().expect("kill card");
    assert_eq!(card.input, ":kill C1");
    assert_eq!(card.mode, Mode::Cron);
}

#[test]
fn cron_trigger_event_creates_cron_record() {
    let mut state = AppState::new();
    state.crons.push(CronRow {
        id: "C1".into(),
        label: "every 5m cargo test".into(),
        status: CronStatus::Scheduled,
    });

    state.update(AppMsg::ServerEvent(EventPayload::CronTriggered {
        cron_id: "C1".into(),
        job_id: "J42".into(),
    }));

    let card = state.main_view.cards.last().expect("cron trigger card");
    assert_eq!(card.mode, Mode::Cron);
    assert_eq!(card.label.as_deref(), Some("C1"));
    assert!(card.output.contains("definition: every 5m cargo test"));
    assert!(card.output.contains("job: awaiting snapshot"));
}

#[test]
fn cron_trigger_card_tracks_job_status_updates() {
    let mut state = AppState::new();
    state.crons.push(CronRow {
        id: "C1".into(),
        label: "every 5m cargo test".into(),
        status: CronStatus::Scheduled,
    });
    state.update(AppMsg::ServerEvent(EventPayload::CronTriggered {
        cron_id: "C1".into(),
        job_id: "J42".into(),
    }));

    state.update(AppMsg::ServerEvent(EventPayload::JobCreated {
        job_id: "J42".into(),
        pipeline: "cargo test".into(),
        start_scope: Some("S@abc".into()),
        open_hint: JobOpenHint::Stream,
        chain_id: None,
        chain_index: None,
        chain_total: None,
    }));
    state.update(AppMsg::ServerEvent(EventPayload::JobStateChanged {
        job_id: "J42".into(),
        old_state: JobStatus::Running,
        new_state: JobStatus::Done,
        end_scope: Some("S@def".into()),
        chain_id: None,
        chain_index: None,
    }));

    let card = state.main_view.cards.last().expect("cron trigger card");
    assert_eq!(card.status, CardStatus::Success);
    assert!(card.output.contains("J42"));
    assert!(card.output.contains("status: done"));
    assert!(card.output.contains("start scope: S@abc"));
    assert!(card.output.contains("end scope: S@def"));
}

#[test]
fn card_inspection_opens_preview_tab() {
    let mut state = AppState::new();
    let card_index = state.main_view.push_card("cargo test".into(), Mode::Job);
    state.main_view.set_card_output(card_index, "done".into());

    state.inspect_card(card_index);

    assert_eq!(state.display_tab_labels(), vec![" record  × ".to_string()]);
    assert!(state.display_pane_content().contains("input: cargo test"));
}

#[test]
fn tab_completes_builtin_command() {
    let mut state = AppState::new();
    state.input.insert_text(":ki");

    state.update(AppMsg::KeyEvent(KeyEvent::new(
        KeyCode::Tab,
        KeyModifiers::none(),
    )));

    assert_eq!(state.input.content, ":kill ");
}

#[test]
fn tab_completes_bare_job_path() {
    let mut state = AppState::new();
    state.input.insert_text("src/app.r");

    state.update(AppMsg::KeyEvent(KeyEvent::new(KeyCode::Tab, KeyModifiers::none())));
    list_sources(&mut state);

    assert_eq!(state.input.content, "src/app.rs ");
}

#[test]
fn tab_completes_bare_cron_command_path() {
    let mut state = AppState::new();
    state.mode = Mode::Cron;
    state.sync_mode_views();
    state.input.insert_text("daily src/app.r");

    state.update(AppMsg::KeyEvent(KeyEvent::new(KeyCode::Tab, KeyModifiers::none())));
    list_sources(&mut state);

    assert_eq!(state.input.content, "daily src/app.rs ");
}

#[test]
fn shift_tab_switches_mode_from_sidebar_focus() {
    let mut state = AppState::new();
    state.set_focus(FocusArea::Sidebar);

    state.update(AppMsg::KeyEvent(KeyEvent::new(
        KeyCode::BackTab,
        KeyModifiers::shift(),
    )));

    assert_eq!(state.mode, Mode::Cron);
    assert_eq!(state.focus, FocusArea::Sidebar);
}

#[test]
fn shift_tab_switches_mode_from_main_view_focus() {
    let mut state = AppState::new();
    state.set_focus(FocusArea::MainView);

    state.update(AppMsg::KeyEvent(KeyEvent::new(
        KeyCode::BackTab,
        KeyModifiers::shift(),
    )));

    assert_eq!(state.mode, Mode::Cron);
    assert_eq!(state.focus, FocusArea::MainView);
}

#[test]
fn fg_attach_without_precreated_card_opens_display_and_session() {
    let mut state = AppState::new();
    queue_pending(
        &mut state,
        1,
        PendingSubmission::user(None, ":fg J1".into(), Mode::Job, Vec::new()),
    );

    state.update(AppMsg::Response {
        id: 1,
        payload: ResponsePayload::Success(OkPayload::FgAttached { id: "J1".into() }),
    });

    assert!(state.fg_active());
    assert_eq!(state.main_view.cards.len(), 1);
    let card = state.main_view.cards.last().unwrap();
    assert_eq!(card.input, ":fg J1");
    assert_eq!(card.label.as_deref(), Some("J1"));
    assert_eq!(card.status, CardStatus::Streaming);
}

#[test]
fn switching_modes_filters_card_history() {
    let mut state = AppState::new();
    state.main_view.push_card("cargo test".into(), Mode::Job);
    state
        .main_view
        .push_card("every 5m cargo test".into(), Mode::Cron);

    assert_eq!(state.main_view.mode, Mode::Job);
    assert_eq!(
        state
            .main_view
            .cards
            .iter()
            .filter(|card| card.mode == state.main_view.mode)
            .count(),
        1
    );

    state.update(AppMsg::ModeSwitch);
    assert_eq!(state.main_view.mode, Mode::Cron);
    assert_eq!(
        state
            .main_view
            .cards
            .iter()
            .filter(|card| card.mode == state.main_view.mode)
            .count(),
        1
    );
}

#[test]
fn offline_submit_does_not_stay_waiting() {
    let mut state = AppState::new();
    state.update(AppMsg::Submit("ls".into()));

    let card = state.main_view.cards.last().unwrap();
    assert_eq!(card.status, CardStatus::Error);
    assert!(card.output.contains("offline"));
}

#[test]
fn restart_local_command_uses_restart_handle() {
    let mut state = AppState::new();
    state.set_restart_available(true);

    state.update(AppMsg::Submit(":restart".into()));

    let mut calls = 0;
    for effect in state.take_effects() {
        if let Effect::Restart { card_index } = effect {
            calls += 1;
            state.update(AppMsg::RestartRequested { card_index, result: Ok(()) });
        }
    }

    let card = state.main_view.cards.last().expect("restart card");
    assert_eq!(card.input, ":restart");
    assert_eq!(card.status, CardStatus::Pending);
    assert!(card.output.contains("waiting for reconnect"));
    assert_eq!(calls, 1);
}

#[test]
fn chain_created_does_not_overwrite_leaf_label() {
    let mut state = AppState::new();
    let card_index = state.main_view.push_card("sleep 4 -> ls".into(), Mode::Job);
    queue_pending(
        &mut state,
        1,
        PendingSubmission::user(
            Some(card_index),
            "sleep 4 -> ls".into(),
            Mode::Job,
            Vec::new(),
        ),
    );

    state.update(AppMsg::ServerEvent(EventPayload::JobCreated {
        job_id: "J1".into(),
        pipeline: "sleep 4".into(),
        start_scope: Some("S@abc12345".into()),
        open_hint: JobOpenHint::Stream,
        chain_id: None,
        chain_index: None,
        chain_total: None,
    }));
    state.update(AppMsg::Response {
        id: 1,
        payload: ResponsePayload::Success(OkPayload::ChainCreated {
            chain_id: "C1".into(),
            job_ids: vec!["J1".into()],
            chain: ChainInfo {
                id: "C1".into(),
                pipeline: "sleep 4 -> ls".into(),
                total_jobs: 1,
                jobs: vec![],
            },
        }),
    });

    assert_eq!(state.jobs[0].label, "sleep 4");
    assert_eq!(state.jobs[0].start_scope.as_deref(), Some("S@abc12345"));
    assert_eq!(state.main_view.cards.last().unwrap().output, "C1: J1");
}

#[test]
fn missing_operator_spacing_warns_on_submit() {
    let mut state = AppState::new();
    state.update(AppMsg::Submit("sleep 4->ls".into()));

    let card = state.main_view.cards.last().unwrap();
    assert!(card.output.contains("missing spaces around `->`"));
    assert!(card.output.contains("sleep 4 -> ls"));
}

#[test]
fn clear_display_clears_all_logs_when_idle() {
    let mut state = AppState::new();
    state.main_view.push_card("job".into(), Mode::Job);
    state.main_view.push_card("cron".into(), Mode::Cron);

    state.update(AppMsg::ClearDisplay);

    assert!(state.main_view.cards.is_empty());
}

#[test]
fn clear_display_is_blocked_while_submission_is_pending() {
    let mut state = AppState::new();
    let card_index = state.main_view.push_card("sleep 4".into(), Mode::Job);
    queue_pending(
        &mut state,
        1,
        PendingSubmission::user(Some(card_index), "sleep 4".into(), Mode::Job, Vec::new()),
    );

    state.update(AppMsg::ClearDisplay);

    assert_eq!(
        state
            .main_view
            .cards
            .iter()
            .filter(|card| card.mode == Mode::Job)
            .count(),
        1
    );
}

#[test]
fn silent_snapshot_responses_do_not_consume_user_cards() {
    let mut state = AppState::new();
    let card_index = state.main_view.push_card("sleep 4".into(), Mode::Job);
    queue_pending(&mut state, 1, PendingSubmission::silent());
    queue_pending(
        &mut state,
        2,
        PendingSubmission::user(Some(card_index), "sleep 4".into(), Mode::Job, Vec::new()),
    );

    state.update(AppMsg::Response {
        id: 1,
        payload: ResponsePayload::Success(OkPayload::JobList(vec![])),
    });
    state.update(AppMsg::Response {
        id: 2,
        payload: ResponsePayload::Success(OkPayload::JobCreated {
            job_id: "J1".into(),
            start_scope: None,
            open_hint: JobOpenHint::Stream,
            chain_id: None,
            chain_index: None,
            chain_total: None,
        }),
    });

    let card = &state.main_view.cards[card_index];
    assert_eq!(card.label.as_deref(), Some("J1"));
    assert_eq!(card.output, "J1\nstatus: running");
}

#[test]
fn responses_match_pending_submissions_by_request_id() {
    let mut state = AppState::new();
    let card_index = state.main_view.push_card("sleep 4".into(), Mode::Job);
    queue_pending(
        &mut state,
        10,
        PendingSubmission::user(Some(card_index), "sleep 4".into(), Mode::Job, Vec::new()),
    );
    queue_pending(&mut state, 11, PendingSubmission::silent());

    state.update(AppMsg::Response {
        id: 11,
        payload: ResponsePayload::Success(OkPayload::JobList(vec![])),
    });
    state.update(AppMsg::Response {
        id: 10,
        payload: ResponsePayload::Success(OkPayload::JobCreated {
            job_id: "J1".into(),
            start_scope: None,
            open_hint: JobOpenHint::Stream,
            chain_id: None,
            chain_index: None,
            chain_total: None,
        }),
    });

    let card = &state.main_view.cards[card_index];
    assert_eq!(card.label.as_deref(), Some("J1"));
    assert_eq!(card.output, "J1\nstatus: running");
}

#[test]
fn job_created_event_carries_start_scope_into_sidebar() {
    let mut state = AppState::new();

    state.update(AppMsg::ServerEvent(EventPayload::JobCreated {
        job_id: "J1".into(),
        pipeline: "sleep 4".into(),
        start_scope: Some("S@abc12345".into()),
        open_hint: JobOpenHint::Stream,
        chain_id: None,
        chain_index: None,
        chain_total: None,
    }));

    assert_eq!(state.jobs.len(), 1);
    assert_eq!(state.jobs[0].label, "sleep 4");
    assert_eq!(state.jobs[0].start_scope.as_deref(), Some("S@abc12345"));
}

#[test]
fn job_list_snapshot_preserves_start_scope() {
    let mut state = AppState::new();

    state.update(AppMsg::Response {
        id: 1,
        payload: ResponsePayload::Success(OkPayload::JobList(vec![JobInfo {
            id: "J1".into(),
            status: JobStatus::Running,
            pipeline: "sleep 4".into(),
            exit_code: None,
            start_scope: Some("S@abc12345".into()),
            end_scope: None,
            open_hint: JobOpenHint::Stream,
            chain_id: None,
            chain_index: None,
            chain_total: None,
            pending_reason: None,
        }])),
    });

    assert_eq!(state.jobs.len(), 1);
    assert_eq!(state.jobs[0].start_scope.as_deref(), Some("S@abc12345"));
}

#[test]
fn fg_key_bytes_use_application_cursor_sequences_when_enabled() {
    let key = KeyEvent::new(KeyCode::Up, KeyModifiers::none());
    assert_eq!(key_bytes(key, false), Some(b"\x1b[A".to_vec()));
    assert_eq!(key_bytes(key, true), Some(b"\x1bOA".to_vec()));
}

#[test]
fn fg_paste_bytes_wrap_when_bracketed_paste_is_enabled() {
    assert_eq!(paste_bytes("echo hi", false), b"echo hi".to_vec());
    assert_eq!(
        paste_bytes("echo hi", true),
        b"\x1b[200~echo hi\x1b[201~".to_vec()
    );
}

#[test]
fn fg_output_updates_terminal_modes_and_preserves_formatted_contents() {
    let mut state = AppState::new();
    queue_pending(
        &mut state,
        1,
        PendingSubmission::user(None, ":fg J1".into(), Mode::Job, Vec::new()),
    );
    state.update(AppMsg::Response {
        id: 1,
        payload: ResponsePayload::Success(OkPayload::FgAttached { id: "J1".into() }),
    });
    state.update(AppMsg::ServerEvent(EventPayload::FgOutput {
        data: b"\x1b[?1049h\x1b[?1h\x1b[?2004h\x1b[31mhello\x1b[0m".to_vec(),
    }));

    let screen = state.fg_screen().unwrap();
    assert!(screen.alternate_screen);
    assert!(screen.application_cursor);
    assert!(screen.bracketed_paste);
    assert!(screen.contents.contains("hello"));

    state.update(AppMsg::ServerEvent(EventPayload::FgExited {
        id: "J1".into(),
        reason: "detached".into(),
    }));

    let card = state.main_view.cards.last().unwrap();
    assert_eq!(card.status, CardStatus::Success);
    assert!(card.output.contains("hello"));
    assert!(card.output.contains("\u{1b}[31m"));
}

#[test]
fn sent_command_waits_for_its_answer() {
    let mut state = AppState::new();
    state.update(AppMsg::Reconnected { writer: WriterHandle::new(40) });
    let before = state.pending_submissions.len();

    state.update(AppMsg::Submit(":jobs".into()));

    assert_eq!(state.pending_submissions.len(), before + 1);
    let outgoing = state.writer.as_mut().expect("writer").take_outgoing();
    assert!(matches!(
        outgoing.last(),
        Some((_, RequestPayload::Eval { input, mode: Mode::Job })) if input == ":jobs"
    ));
}

#[test]
fn disconnecting_fails_what_was_waiting() {
    let mut state = AppState::new();
    let card_index = state.main_view.push_card("sleep 4".into(), Mode::Job);
    queue_pending(
        &mut state,
        1,
        PendingSubmission::user(Some(card_index), "sleep 4".into(), Mode::Job, Vec::new()),
    );

    state.update(AppMsg::Disconnected);

    assert_eq!(state.pending_submissions.len(), 0);
    assert_eq!(state.main_view.cards[card_index].status, CardStatus::Error);
    assert!(!state.connected);
}

#[test]
fn failed_answers_are_shown_on_their_card() {
    let mut state = AppState::new();
    let card_index = state.main_view.push_card(":kill J9".into(), Mode::Job);
    queue_pending(
        &mut state,
        1,
        PendingSubmission::user(Some(card_index), ":kill J9".into(), Mode::Job, Vec::new()),
    );

    state.update(AppMsg::Response {
        id: 1,
        payload: ResponsePayload::Failure {
            code: "NOT_FOUND".into(),
            message: "no job J9".into(),
        },
    });

    let card = &state.main_view.cards[card_index];
    assert_eq!(card.status, CardStatus::Error);
    assert!(card.output.contains("no job J9"));
}

#[test]
fn switching_the_mode_twice_restores_it() {
    let mut state = AppState::new();
    state.update(AppMsg::ModeSwitch);
    state.update(AppMsg::ModeSwitch);
    assert_eq!(state.mode, Mode::Job);
    assert_eq!(state.input.mode, Mode::Job);
    assert_eq!(state.main_view.mode, Mode::Job);
}

#[test]
fn an_attached_foreground_job_gets_the_keys() {
    let mut state = AppState::new();
    state.update(AppMsg::Reconnected { writer: WriterHandle::new(1) });
    queue_pending(
        &mut state,
        900,
        PendingSubmission::user(None, ":fg J1".into(), Mode::Job, Vec::new()),
    );
    state.update(AppMsg::Response {
        id: 900,
        payload: ResponsePayload::Success(OkPayload::FgAttached { id: "J1".into() }),
    });
    assert_eq!(state.fg_id(), Some("J1"));

    state.update(AppMsg::KeyEvent(KeyEvent::new(KeyCode::Char('x'), KeyModifiers::none())));

    let outgoing = state.writer.as_mut().expect("writer").take_outgoing();
    assert!(matches!(
        outgoing.last(),
        Some((_, RequestPayload::FgInput { data })) if data == b"x"
    ));
    assert_eq!(state.input.content, "");
}

#[test]
fn ticks_change_nothing() {
    let mut state = AppState::new();
    state.input.insert_text("echo");
    state.update(AppMsg::Tick);
    assert_eq!(state.input.content, "echo");
    assert!(state.effects.is_empty());
}

#[test]
fn the_loop_saves_changed_history_and_stops_on_quit() {
    let mut state = AppState::new();
    let step = after_message(&state, &state.input.history, state.mouse_mode.capture_enabled());
    assert!(!step.save_history);
    assert_eq!(step.set_mouse_capture, None);
    assert!(!step.quit);

    state.input.history.push("ls".into());
    state.update(AppMsg::ToggleMouseMode);
    state.update(AppMsg::Quit);
    let step = after_message(&state, &Vec::new(), !state.mouse_mode.capture_enabled());
    assert!(step.save_history);
    assert_eq!(step.set_mouse_capture, Some(state.mouse_mode.capture_enabled()));
    assert!(step.quit);
}

#[test]
fn a_failed_reconnect_is_noted_in_the_dialog() {
    let mut state = AppState::new();
    state.update(AppMsg::ReconnectFailed { message: "refused".into() });
    assert!(state.target_settings.is_none());

    state.target_settings = Some(TargetSettingsState::new(test_target_snapshot(
        "/tmp/client.toml",
        "local",
        vec![test_target_profile("local", "unix", "socket", TargetProfileSource::Local)],
    )));
    state.update(AppMsg::ReconnectFailed { message: "refused".into() });
    assert_eq!(
        state.target_settings.as_ref().and_then(TargetSettingsState::notice),
        Some("reconnect failed: refused")
    );
}
