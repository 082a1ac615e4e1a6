use cue_shell::cron::CronStatus;
use cue_shell::job::JobStatus;
use cue_shell::mode::Mode;
use cue_shell::tui::app::session::FgSession;
use cue_shell::tui::app::rows::{find_job, remove_job, upsert_job_row};
use cue_shell::tui::app::state::AppState;
use cue_shell::tui::app::tables::{CardTable, PendingTable};
use cue_shell::tui::app::update::AppMsg;
use cue_shell::tui::display::{plan_display_subscriptions, DisplayPane, DisplayStream};
use cue_shell::tui::geometry::Rect;
use cue_shell::tui::input_line::InputLine;
use cue_shell::tui::ipc::{EventPayload, JobOpenHint, Stream, WriterHandle};
use cue_shell::tui::job_picker::JobPickerState;
use cue_shell::tui::keys::{KeyCode, KeyEvent, KeyModifiers, MouseEvent, MouseEventKind};
use cue_shell::tui::main_view::MainView;
use cue_shell::tui::message::{FocusArea, MouseMode, UserAction};
use cue_shell::tui::record_format::format_cron_preview;
use cue_shell::tui::run_loop::fatal_error;
use cue_shell::tui::status_bar::{clock_text, StatusBar};
use cue_shell::tui::submission::PendingSubmission;
use cue_shell::tui::text_order::{insert_string, sort_strings, strings_without};

fn press(code: KeyCode) -> KeyEvent {
    KeyEvent::new(code, KeyModifiers::none())
}

#[test]
fn a_click_hits_the_card_that_is_drawn_there() {
    let mut view = MainView::new();
    for input in ["one", "two", "three"] {
        let index = view.push_card(input.into(), Mode::Job);
        view.set_card_output(index, "a\nb".into());
    }
    let area = Rect::new(2, 1, 20, 10);
    let places = view.card_areas(area);
    assert_eq!(
        places,
        vec![
            (2, Rect::new(2, 7, 20, 4)),
            (1, Rect::new(2, 3, 20, 4)),
            (0, Rect::new(2, 1, 20, 2)),
        ]
    );
    for (index, place) in places {
        let point = Rect::new(place.x, place.y, 1, 1);
        assert_eq!(view.card_at_point(area, point), Some(index));
    }
    view.handle_scroll(MouseEventKind::ScrollUp);
    assert!(view.card_areas(area).len() < 3);
}

#[test]
fn the_prompt_is_drawn_with_its_cursor() {
    let mut input = InputLine::new();
    input.insert_text("ab\nc");
    let prompt = input.prompt_text();
    let width = prompt.chars().count();
    let rows = input.render_lines();
    assert_eq!(rows.len(), 2);
    assert_eq!(rows[0].chars.iter().collect::<String>(), format!("{prompt}ab"));
    assert_eq!(rows[0].cursor, None);
    assert_eq!(rows[1].chars.iter().collect::<String>(), format!("{}c ", " ".repeat(width)));
    assert_eq!(rows[1].cursor, Some(width + 1));

    input.cursor = 2;
    let rows = input.render_lines();
    assert_eq!(rows[0].chars.iter().collect::<String>(), format!("{prompt}ab "));
    assert_eq!(rows[0].cursor, Some(width + 2));
    assert_eq!(rows[1].cursor, None);
}

#[test]
fn the_history_gives_back_what_was_typed() {
    let mut input = InputLine::new();
    input.replace_history(vec!["ls".into(), "pwd".into()]);
    input.insert_text("ec");
    input.handle_key(press(KeyCode::Up));
    assert_eq!(input.content, "pwd");
    input.handle_key(press(KeyCode::Up));
    assert_eq!(input.content, "ls");
    input.handle_key(press(KeyCode::Down));
    input.handle_key(press(KeyCode::Down));
    assert_eq!(input.content, "ec");
    let action = input.handle_key(press(KeyCode::Enter));
    assert_eq!(action, Some(UserAction::Submit("ec".into())));
}

#[test]
fn the_cursor_stays_on_characters() {
    let mut input = InputLine::new();
    input.insert_text("aäb");
    input.handle_key(press(KeyCode::Left));
    input.handle_key(press(KeyCode::Left));
    assert_eq!(input.cursor, 1);
    input.handle_key(press(KeyCode::Delete));
    assert_eq!(input.content, "ab");
    input.handle_key(press(KeyCode::Backspace));
    assert_eq!(input.content, "b");
    assert_eq!(input.cursor, 0);
}

#[test]
fn tabs_stay_distinct_and_the_opened_one_is_shown() {
    let mut pane = DisplayPane::new();
    pane.show_output("J1".into(), DisplayStream::Stdout, "one".into(), false, true);
    pane.show_output("J2".into(), DisplayStream::Stdout, "two".into(), false, false);
    pane.show_output("J1".into(), DisplayStream::Stdout, "again".into(), false, true);
    assert_eq!(pane.labels().len(), 2);
    assert_eq!(pane.active(), Some(0));
    assert_eq!(pane.content(), "again");
    assert!(pane.disable_follow("J1"));
    assert!(pane.desired_subscriptions().is_empty());
    assert_eq!(pane.copy_target().map(|t| t.content), Some("again".to_string()));
    pane.clear();
    assert!(!pane.has_target());
}

#[test]
fn a_plan_leads_to_the_desired_subscriptions() {
    let ids = |list: &[&str]| -> Vec<String> { list.iter().map(|id| id.to_string()).collect() };
    let plan =
        plan_display_subscriptions(&ids(&["J1", "J2"]), &ids(&["J2", "J3"]), &ids(&[]), &ids(&[]));
    assert_eq!(plan.subscribe, ids(&["J1"]));
    assert_eq!(plan.unsubscribe, ids(&["J3"]));
}

#[test]
fn texts_are_kept_in_order() {
    let words = |list: &[&str]| -> Vec<String> { list.iter().map(|w| w.to_string()).collect() };
    assert_eq!(sort_strings(&words(&["b", "a", "ab", "a"])), words(&["a", "ab", "b"]));
    let mut sorted = words(&["a", "c"]);
    insert_string(&mut sorted, "b".to_string());
    assert_eq!(sorted, words(&["a", "b", "c"]));
    assert_eq!(
        strings_without(&words(&["a", "b", "c"]), &words(&["a"]), &words(&["c"])),
        words(&["b"])
    );
}

#[test]
fn rows_are_found_until_they_are_removed() {
    let mut jobs = Vec::new();
    for id in ["J1", "J2"] {
        upsert_job_row(
            &mut jobs,
            id.into(),
            "ls".into(),
            JobStatus::Running,
            None,
            JobOpenHint::Stream,
        );
    }
    assert_eq!(find_job(&jobs, "J2").map(|i| jobs[i].id.clone()), Some("J2".to_string()));
    let jobs = remove_job(jobs, "J2");
    assert_eq!(find_job(&jobs, "J2"), None);
    assert_eq!(jobs.len(), 1);
}

#[test]
fn tables_answer_what_was_put_in() {
    let mut cards = CardTable::new();
    cards.insert("J1".into(), 3);
    cards.insert("J1".into(), 4);
    assert_eq!(cards.get("J1"), Some(4));
    assert_eq!(cards.key_of(4), Some("J1".to_string()));
    cards.remove("J1");
    assert_eq!(cards.get("J1"), None);

    let mut pending = PendingTable::new();
    pending.insert(9, PendingSubmission::silent());
    pending.insert(2, PendingSubmission::silent_request("snapshot"));
    assert_eq!(pending.len(), 2);
    let first = pending.take_first().expect("first");
    assert_eq!(first.silent_description(), Some("snapshot"));
    assert!(pending.take(9).is_some());
    assert!(pending.take(9).is_none());
}

#[test]
fn selections_stay_among_the_entries() {
    let mut picker = JobPickerState::open(2);
    picker.select(5);
    picker.move_selection(1, 2);
    assert_eq!(picker.selected(), Some(1));
    assert_eq!(MouseMode::UiCapture.toggle().toggle(), MouseMode::UiCapture);
    assert_eq!(Mode::Job.next().next(), Mode::Job);
}

#[test]
fn a_picker_takes_the_keys() {
    let mut state = AppState::new();
    state.update(AppMsg::OpenJobPicker);
    assert!(state.job_picker_open());
    state.update(AppMsg::KeyEvent(press(KeyCode::Char('x'))));
    assert_eq!(state.input.content, "");
    state.update(AppMsg::KeyEvent(press(KeyCode::Esc)));
    assert!(!state.job_picker_open());
}

#[test]
fn refused_requests_wait_for_nothing() {
    let mut state = AppState::new();
    let mut writer = WriterHandle::new(1);
    writer.refuse("closed".into());
    state.writer = Some(writer);
    state.show_output_display("J1".into(), DisplayStream::Stdout, "x".into(), false, true);
    assert_eq!(state.display_subscriptions, vec!["J1"]);
    assert_eq!(state.pending_submissions.len(), 0);
}

#[test]
fn removed_crons_leave_the_sidebar() {
    let mut state = AppState::new();
    state.update(AppMsg::ModeSwitch);
    state.crons.push(cue_shell::tui::app::rows::CronRow {
        id: "C1".into(),
        label: "daily ls".into(),
        status: CronStatus::Paused,
    });
    state.sync_sidebar_items();
    assert_eq!(state.sidebar.items.len(), 1);
    state.update(AppMsg::ServerEvent(EventPayload::CronRemoved { cron_id: "C1".into() }));
    assert!(state.crons.is_empty());
    assert!(state.sidebar.items.is_empty());
    state.set_focus(FocusArea::Sidebar);
    assert!(state.sidebar.focused);
}

#[test]
fn the_status_bar_counts_and_tells_the_time() {
    let bar = StatusBar::new();
    assert_eq!(bar.counts_text(), "J:0 (-)  C:0");
    assert_eq!(clock_text(3_661), "01:01");
    assert_eq!(bar.action_at(Rect::new(0, 0, 20, 1), 19), None);
    let labels = bar.action_labels();
    let width: usize = labels.iter().map(|l| l.chars().count()).sum::<usize>() + labels.len() - 1;
    assert_eq!(usize::from(bar.action_text_width()), width);
    let preview = format_cron_preview("C1", "daily ls", CronStatus::Paused);
    assert!(preview.contains("C1") && preview.contains("paused"));
}

#[test]
fn no_target_gets_a_second_tab() {
    let mut pane = DisplayPane::new();
    pane.show_output("J1".into(), DisplayStream::Stdout, "one".into(), false, true);
    pane.show_output("J2".into(), DisplayStream::Stderr, "two".into(), false, true);
    pane.append_output("J1", Stream::Stdout, "more");
    pane.disable_follow("J2");
    pane.close(0);
    pane.activate(5);
    pane.show_output("J2".into(), DisplayStream::Stderr, "again".into(), true, false);
    assert_eq!(pane.labels().len(), 1);
    assert_eq!(pane.content(), "again\n--- (truncated) ---");
}

fn session(cols: u16, rows: u16) -> FgSession {
    FgSession::new("J1".into(), None, cols, rows)
}

#[test]
fn a_terminal_can_be_made_narrower_and_wider() {
    let mut s = session(6, 3);
    s.feed(b"abcdef".to_vec());
    s.resize(3, 3);
    s.feed(b"\x1b[2;1Hxy".to_vec());
    assert_eq!(s.screen().contents, "abc\nxy");
    s.resize(1, 1);
    s.feed(b"\x1b[1;1Hq".to_vec());
    assert_eq!(s.screen().contents, "q\nx");
}

#[test]
fn a_wide_character_is_not_cut_in_half() {
    let mut s = session(3, 2);
    s.feed("a漢".as_bytes().to_vec());
    assert_eq!(s.screen().contents, "a漢");
    s.resize(2, 2);
    s.feed(b"b".to_vec());
    assert_eq!(s.screen().contents, "a漢b");
    s.resize(8, 2);
    s.feed("\x1b[2J\x1b[1;1H漢字".as_bytes().to_vec());
    s.resize(3, 2);
    s.feed(b"c".to_vec());
    assert!(s.screen().contents.contains('c'));
}

#[test]
fn a_character_without_room_gets_some() {
    let mut s = session(1, 1);
    s.feed(b"a".to_vec());
    s.feed("漢\u{17d8}".as_bytes().to_vec());
    assert!(s.screen().contents.contains('漢'));
}

#[test]
fn a_fatal_error_ends_the_loop() {
    let mut state = AppState::new();
    let msg = AppMsg::FatalError { message: "no terminal".into() };
    assert_eq!(fatal_error(&msg), Some("no terminal".to_string()));
    assert_eq!(fatal_error(&AppMsg::Tick), None);
    state.update(msg);
    assert!(state.should_quit);
}

#[test]
fn the_mouse_reaches_what_stands_there() {
    let mut state = AppState::new();
    state.terminal_width = 80;
    state.terminal_height = 24;
    let at = state.places();
    let input = at.regions.input;
    state.set_focus(FocusArea::MainView);
    state.mouse_at(
        MouseEvent { kind: MouseEventKind::LeftDown, column: input.x, row: input.y },
        at,
    );
    assert_eq!(state.focus, FocusArea::Input);
}

#[test]
fn box_drawing_survives_a_narrower_terminal() {
    let mut s = session(6, 2);
    s.feed("│✓b\u{e0b0}cd".as_bytes().to_vec());
    s.resize(4, 2);
    assert_eq!(s.screen().contents, "│✓b\u{e0b0}");
    s.resize(6, 2);
    assert_eq!(s.screen().contents, "│✓b\u{e0b0}");
}

#[test]
fn a_character_in_two_pieces_is_one_character() {
    let mut s = session(6, 2);
    s.feed(vec![0xe2]);
    s.feed(vec![0x94, 0x82]);
    s.feed(b"abc".to_vec());
    s.resize(2, 2);
    assert_eq!(s.screen().contents, "│a");
}

/// Whether the emulator gives the character two cells: the next one then stands in
/// the third, where it is overwritten.
fn takes_two_cells(c: char) -> bool {
    let mut s = session(3, 2);
    s.feed(format!("{c}y\u{1b}[1;3Hz").into_bytes());
    s.screen().contents == format!("{c}z")
}

#[test]
fn only_characters_that_may_be_wide_start_another_terminal() {
    assert!(takes_two_cells('漢'));
    let ranges = [0xa0u32..0x3000, 0xe000..0xf900, 0xfffd..0xfffe];
    for c in ranges.into_iter().flatten().filter_map(char::from_u32) {
        let mut s = session(2, 2);
        s.feed(format!("{c}").into_bytes());
        s.feed(b"\x1b[2J\x1b[1;1Hab\x1b[1;3H!".to_vec());
        // In two columns the mark overwrites the second letter.
        let taken_over = s.screen().contents.starts_with("ab!");
        if takes_two_cells(c) {
            assert!(taken_over, "{:x}", u32::from(c));
        }
    }
}
