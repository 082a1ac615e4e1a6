use cue_shell::cron::CronStatus;
use cue_shell::job::JobStatus;
use cue_shell::mode::Mode;
use cue_shell::tui::geometry::Rect;
use cue_shell::tui::job_picker::{
    cron_picker_item, empty_text, job_picker_content_rect, job_picker_item, job_picker_popup_rect,
    submit_label, title, CronPickerRecord, JobPickerItem, JobPickerRecord, JobPickerState,
};

#[test]
fn picker_modal_rects_share_popup_and_content_geometry() {
    let popup = job_picker_popup_rect(Rect::new(0, 0, 100, 50));

    assert_eq!(popup, Rect::new(15, 10, 70, 30));
    assert_eq!(job_picker_content_rect(popup), Rect::new(16, 11, 68, 28));
}

#[test]
fn picker_items_include_running_jobs_and_all_crons() {
    assert_eq!(
        job_picker_item(JobPickerRecord {
            id: "J7",
            label: "server",
            status: JobStatus::Running,
        }),
        Some(JobPickerItem {
            id: "J7".into(),
            label: "server".into(),
            status_icon: "🔄",
        })
    );
    assert_eq!(
        job_picker_item(JobPickerRecord {
            id: "J8",
            label: "done",
            status: JobStatus::Done,
        }),
        None
    );
    assert_eq!(
        cron_picker_item(CronPickerRecord {
            id: "C2",
            label: "daily",
            status: CronStatus::Scheduled,
        }),
        JobPickerItem {
            id: "C2".into(),
            label: "daily".into(),
            status_icon: "⏰",
        }
    );
}

#[test]
fn open_selects_last_item() {
    assert_eq!(JobPickerState::open(3).selected(), Some(2));
    assert_eq!(JobPickerState::open(0).selected(), None);
}

#[test]
fn movement_clamps_to_available_items() {
    let mut picker = JobPickerState::open(3);

    picker.move_selection(10, 3);
    assert_eq!(picker.selected(), Some(2));

    picker.move_selection(-10, 3);
    assert_eq!(picker.selected(), Some(0));
}

#[test]
fn empty_items_clear_selection() {
    let mut picker = JobPickerState::open(3);

    picker.move_selection(1, 0);

    assert_eq!(picker.selected(), None);
}

#[test]
fn mode_labels_describe_picker_action() {
    assert_eq!(title(Mode::Job), "Running Jobs");
    assert_eq!(empty_text(Mode::Cron), "No crons.");
    assert_eq!(submit_label(Mode::Cron), "remove");
}
