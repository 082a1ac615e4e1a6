//! The picker for running jobs and crons.

use vstd::prelude::*;
use vstd::string::*;

use crate::cron::CronStatus;
use crate::job::JobStatus;
use crate::mode::Mode;
use crate::text::Text;
use crate::tui::geometry::{centered, centered_rect, inner, inner_rect, Rect};
use crate::tui::sidebar::{clamp_index, clamped};
use crate::tui::status_view::{cron_icon, cron_status_icon, job_icon, job_status_icon};

verus! {

/// Which entry is selected.
#[derive(Debug, Clone, Copy, PartialEq, Eq, Structural)]
pub struct JobPickerState {
    pub selected: Option<usize>,
}

#[derive(Debug, PartialEq, Eq)]
pub struct JobPickerItem {
    pub id: String,
    pub label: String,
    pub status_icon: &'static str,
}

/// An entry over character sequences.
pub struct PickerItemModel {
    pub id: Text,
    pub label: Text,
    pub status_icon: Text,
}

impl View for JobPickerItem {
    type V = PickerItemModel;

    open spec fn view(&self) -> PickerItemModel {
        PickerItemModel { id: self.id@, label: self.label@, status_icon: self.status_icon@ }
    }
}

pub struct JobPickerRecord<'a> {
    pub id: &'a str,
    pub label: &'a str,
    pub status: JobStatus,
}

pub struct CronPickerRecord<'a> {
    pub id: &'a str,
    pub label: &'a str,
    pub status: CronStatus,
}

/// A job can be picked while it runs.
pub fn job_picker_item(record: JobPickerRecord<'_>) -> (r: Option<JobPickerItem>)
    ensures
        match r {
            Some(item) => record.status == JobStatus::Running && item@ == (PickerItemModel {
                id: record.id@,
                label: record.label@,
                status_icon: job_icon(record.status),
            }),
            None => record.status != JobStatus::Running,
        },
{
    match record.status {
        JobStatus::Running => Some(
            JobPickerItem {
                id: record.id.to_owned(),
                label: record.label.to_owned(),
                status_icon: job_status_icon(record.status),
            },
        ),
        _ => None,
    }
}

/// A cron can always be picked.
pub fn cron_picker_item(record: CronPickerRecord<'_>) -> (r: JobPickerItem)
    ensures
        r@ == (PickerItemModel {
            id: record.id@,
            label: record.label@,
            status_icon: cron_icon(record.status),
        }),
{
    JobPickerItem {
        id: record.id.to_owned(),
        label: record.label.to_owned(),
        status_icon: cron_status_icon(record.status),
    }
}

/// Where the picker stands.
pub fn job_picker_popup_rect(area: Rect) -> (r: Rect)
    ensures
        r == centered(area, 70, 60),
{
    centered_rect(area, 70, 60)
}

pub fn job_picker_content_rect(popup: Rect) -> (r: Rect)
    ensures
        r == inner(popup),
{
    inner_rect(popup)
}

impl JobPickerState {
    /// The last entry is selected.
    pub open spec fn opened(count: nat) -> JobPickerState {
        JobPickerState {
            selected: if count == 0 {
                None
            } else {
                Some((count - 1) as usize)
            },
        }
    }

    pub open spec fn moved(self, delta: int, count: nat) -> JobPickerState {
        if count == 0 {
            JobPickerState { selected: None }
        } else {
            let current = match self.selected {
                Some(s) => s as int,
                None => count - 1,
            };
            JobPickerState { selected: Some(clamped(current, delta, count as int) as usize) }
        }
    }

    pub fn open(item_count: usize) -> (r: JobPickerState)
        ensures
            r == JobPickerState::opened(item_count as nat),
    {
        JobPickerState {
            selected: if item_count == 0 {
                None
            } else {
                Some(item_count - 1)
            },
        }
    }

    pub fn selected(&self) -> (r: Option<usize>)
        ensures
            r == self.selected,
    {
        self.selected
    }

    pub fn select(&mut self, index: usize)
        ensures
            *final(self) == (JobPickerState { selected: Some(index) }),
    {
        self.selected = Some(index);
    }

    /// Moves the selection, as far as there are entries.
    pub fn move_selection(&mut self, delta: isize, item_count: usize)
        ensures
            *final(self) == old(self).moved(delta as int, item_count as nat),
    {
        if item_count == 0 {
            self.selected = None;
            return;
        }
        let current: usize = match self.selected {
            Some(s) => s,
            None => item_count - 1,
        };
        self.selected = Some(clamp_index(current, delta, item_count));
    }
}

/// The selection is always one of the entries.
pub proof fn lemma_picked_among_entries(p: JobPickerState, delta: int, count: nat)
    requires
        count <= usize::MAX,
    ensures
        JobPickerState::opened(count).selected matches Some(s) ==> s < count,
        p.moved(delta, count).selected matches Some(s) ==> s < count,
        p.moved(delta, count).selected is Some <==> count > 0,
{
}

pub open spec fn title_text(mode: Mode) -> Text {
    match mode {
        Mode::Job => "Running Jobs"@,
        Mode::Cron => "Crons"@,
    }
}

pub open spec fn none_text(mode: Mode) -> Text {
    match mode {
        Mode::Job => "No running jobs."@,
        Mode::Cron => "No crons."@,
    }
}

pub open spec fn submit_text(mode: Mode) -> Text {
    match mode {
        Mode::Job => "kill"@,
        Mode::Cron => "remove"@,
    }
}

pub fn title(mode: Mode) -> (r: &'static str)
    ensures
        r@ == title_text(mode),
{
    match mode {
        Mode::Job => "Running Jobs",
        Mode::Cron => "Crons",
    }
}

pub fn empty_text(mode: Mode) -> (r: &'static str)
    ensures
        r@ == none_text(mode),
{
    match mode {
        Mode::Job => "No running jobs.",
        Mode::Cron => "No crons.",
    }
}

pub fn submit_label(mode: Mode) -> (r: &'static str)
    ensures
        r@ == submit_text(mode),
{
    match mode {
        Mode::Job => "kill",
        Mode::Cron => "remove",
    }
}

} // verus!
