//! Jobs and crons as the front end knows them.

use vstd::prelude::*;
use vstd::string::*;

use crate::cron::CronStatus;
use crate::job::JobStatus;
use crate::text;
use crate::text::Text;
use crate::tui::ipc::{CronInfo, JobInfo, JobOpenHint};
use crate::tui::job_picker::{
    cron_picker_item, job_picker_item, CronPickerRecord, JobPickerItem, JobPickerRecord,
    PickerItemModel,
};
use crate::tui::lines::{no_lines, push_line};
use crate::tui::record_format::{JobRecord, JobRecordModel};
use crate::tui::sidebar::{item_models, SidebarItem, SidebarItemModel};
use crate::tui::status_view::{cron_icon, cron_status_icon, job_icon, job_status_icon};

verus! {

#[derive(Debug)]
pub struct JobRow {
    pub id: String,
    pub label: String,
    pub status: JobStatus,
    pub start_scope: Option<String>,
    pub end_scope: Option<String>,
    pub open_hint: JobOpenHint,
}

#[derive(Debug)]
pub struct CronRow {
    pub id: String,
    pub label: String,
    pub status: CronStatus,
}

/// A job over character sequences.
pub struct JobRowModel {
    pub id: Text,
    pub label: Text,
    pub status: JobStatus,
    pub start_scope: Option<Text>,
    pub end_scope: Option<Text>,
    pub open_hint: JobOpenHint,
}

/// A cron over character sequences.
pub struct CronRowModel {
    pub id: Text,
    pub label: Text,
    pub status: CronStatus,
}

impl View for JobRow {
    type V = JobRowModel;

    open spec fn view(&self) -> JobRowModel {
        JobRowModel {
            id: self.id@,
            label: self.label@,
            status: self.status,
            start_scope: text::opt_text(self.start_scope),
            end_scope: text::opt_text(self.end_scope),
            open_hint: self.open_hint,
        }
    }
}

impl View for CronRow {
    type V = CronRowModel;

    open spec fn view(&self) -> CronRowModel {
        CronRowModel { id: self.id@, label: self.label@, status: self.status }
    }
}

pub open spec fn job_models(v: Seq<JobRow>) -> Seq<JobRowModel> {
    v.map_values(|j: JobRow| j@)
}

pub open spec fn cron_models(v: Seq<CronRow>) -> Seq<CronRowModel> {
    v.map_values(|c: CronRow| c@)
}

// ── Lookup ──

/// The first job from `i` on with this ID.
pub open spec fn job_from(jobs: Seq<JobRowModel>, id: Text, i: int) -> Option<int>
    decreases jobs.len() - i,
{
    if !(0 <= i < jobs.len()) {
        None
    } else if jobs[i].id == id {
        Some(i)
    } else {
        job_from(jobs, id, i + 1)
    }
}

/// The first cron from `i` on with this ID.
pub open spec fn cron_from(crons: Seq<CronRowModel>, id: Text, i: int) -> Option<int>
    decreases crons.len() - i,
{
    if !(0 <= i < crons.len()) {
        None
    } else if crons[i].id == id {
        Some(i)
    } else {
        cron_from(crons, id, i + 1)
    }
}

pub open spec fn job_with(jobs: Seq<JobRowModel>, id: Text) -> Option<JobRowModel> {
    match job_from(jobs, id, 0) {
        Some(i) => Some(jobs[i]),
        None => None,
    }
}

pub open spec fn cron_with(crons: Seq<CronRowModel>, id: Text) -> Option<CronRowModel> {
    match cron_from(crons, id, 0) {
        Some(i) => Some(crons[i]),
        None => None,
    }
}

/// A job found has the ID.
pub proof fn lemma_job_from(jobs: Seq<JobRowModel>, id: Text, i: int)
    ensures
        job_from(jobs, id, i) matches Some(k) ==> 0 <= k < jobs.len() && jobs[k].id == id,
    decreases jobs.len() - i,
{
    if 0 <= i < jobs.len() && jobs[i].id != id {
        lemma_job_from(jobs, id, i + 1);
    }
}

pub fn find_job(jobs: &Vec<JobRow>, id: &str) -> (r: Option<usize>)
    ensures
        match r {
            Some(i) => i < jobs@.len() && job_from(job_models(jobs@), id@, 0) == Some(i as int),
            None => job_from(job_models(jobs@), id@, 0) is None,
        },
{
    let mut i: usize = 0;
    while i < jobs.len()
        invariant
            i <= jobs@.len(),
            job_from(job_models(jobs@), id@, 0) == job_from(job_models(jobs@), id@, i as int),
        decreases jobs@.len() - i,
    {
        assert(job_models(jobs@)[i as int] == jobs@[i as int]@);
        if text::str_eq(jobs[i].id.as_str(), id) {
            return Some(i);
        }
        i = i + 1;
    }
    None
}

pub fn find_cron(crons: &Vec<CronRow>, id: &str) -> (r: Option<usize>)
    ensures
        match r {
            Some(i) => i < crons@.len() && cron_from(cron_models(crons@), id@, 0) == Some(i as int),
            None => cron_from(cron_models(crons@), id@, 0) is None,
        },
{
    let mut i: usize = 0;
    while i < crons.len()
        invariant
            i <= crons@.len(),
            cron_from(cron_models(crons@), id@, 0) == cron_from(cron_models(crons@), id@, i as int),
        decreases crons@.len() - i,
    {
        assert(cron_models(crons@)[i as int] == crons@[i as int]@);
        if text::str_eq(crons[i].id.as_str(), id) {
            return Some(i);
        }
        i = i + 1;
    }
    None
}

// ── Changes ──

pub open spec fn newer<T>(new: Option<T>, old_value: Option<T>) -> Option<T> {
    if new is Some {
        new
    } else {
        old_value
    }
}

/// The jobs with one brought up to date, or added.
pub open spec fn job_upserted(
    jobs: Seq<JobRowModel>,
    id: Text,
    label: Text,
    status: JobStatus,
    start_scope: Option<Text>,
    open_hint: JobOpenHint,
) -> Seq<JobRowModel> {
    match job_from(jobs, id, 0) {
        Some(i) => jobs.update(
            i,
            JobRowModel {
                label: if label.len() > 0 {
                    label
                } else {
                    jobs[i].label
                },
                status,
                start_scope: newer(start_scope, jobs[i].start_scope),
                open_hint,
                ..jobs[i]
            },
        ),
        None => jobs.push(
            JobRowModel { id, label, status, start_scope, end_scope: None, open_hint },
        ),
    }
}

pub fn upsert_job_row(
    jobs: &mut Vec<JobRow>,
    id: String,
    label: String,
    status: JobStatus,
    start_scope: Option<String>,
    open_hint: JobOpenHint,
)
    ensures
        job_models(final(jobs)@) == job_upserted(
            job_models(old(jobs)@),
            id@,
            label@,
            status,
            text::opt_text(start_scope),
            open_hint,
        ),
{
    let ghost before = jobs@;
    let ghost scope = text::opt_text(start_scope);
    if let Some(i) = find_job(jobs, id.as_str()) {
        assert(job_models(before)[i as int] == before[i as int]@);
        if label.as_str().unicode_len() > 0 {
            jobs[i].label = label;
        }
        jobs[i].status = status;
        if start_scope.is_some() {
            jobs[i].start_scope = start_scope;
        }
        jobs[i].open_hint = open_hint;
        proof {
            let expected = JobRowModel {
                label: if label@.len() > 0 {
                    label@
                } else {
                    before[i as int]@.label
                },
                status,
                start_scope: newer(scope, before[i as int]@.start_scope),
                open_hint,
                ..before[i as int]@
            };
            assert(jobs@[i as int]@ == expected);
            assert(job_models(jobs@) =~= job_models(before).update(i as int, expected));
        }
        return;
    }
    let row = JobRow { id, label, status, start_scope, end_scope: None, open_hint };
    assert(job_models(before.push(row)) =~= job_models(before).push(row@));
    jobs.push(row);
}

/// The jobs after one changed its status, or was first heard of so.
pub open spec fn job_status_set(
    jobs: Seq<JobRowModel>,
    id: Text,
    status: JobStatus,
    end_scope: Option<Text>,
) -> Seq<JobRowModel> {
    match job_from(jobs, id, 0) {
        Some(i) => jobs.update(
            i,
            JobRowModel { status, end_scope: newer(end_scope, jobs[i].end_scope), ..jobs[i] },
        ),
        None => jobs.push(
            JobRowModel {
                id,
                label: id,
                status,
                start_scope: None,
                end_scope,
                open_hint: JobOpenHint::Stream,
            },
        ),
    }
}

/// Gives a job its status; says whether the job was known.
pub fn set_job_status(
    jobs: &mut Vec<JobRow>,
    id: &str,
    status: JobStatus,
    end_scope: Option<String>,
) -> (r: bool)
    ensures
        job_models(final(jobs)@) == job_status_set(
            job_models(old(jobs)@),
            id@,
            status,
            text::opt_text(end_scope),
        ),
        r == (job_from(job_models(old(jobs)@), id@, 0) is Some),
{
    let ghost before = jobs@;
    let ghost scope = text::opt_text(end_scope);
    if let Some(i) = find_job(jobs, id) {
        assert(job_models(before)[i as int] == before[i as int]@);
        jobs[i].status = status;
        if end_scope.is_some() {
            jobs[i].end_scope = end_scope;
        }
        proof {
            let expected = JobRowModel {
                status,
                end_scope: newer(scope, before[i as int]@.end_scope),
                ..before[i as int]@
            };
            assert(jobs@[i as int]@ == expected);
            assert(job_models(jobs@) =~= job_models(before).update(i as int, expected));
        }
        return true;
    }
    let row = JobRow {
        id: id.to_owned(),
        label: id.to_owned(),
        status,
        start_scope: None,
        end_scope,
        open_hint: JobOpenHint::Stream,
    };
    assert(job_models(before.push(row)) =~= job_models(before).push(row@));
    jobs.push(row);
    false
}

/// The jobs without those that have this ID.
pub open spec fn jobs_without(jobs: Seq<JobRowModel>, id: Text) -> Seq<JobRowModel>
    decreases jobs.len(),
{
    if jobs.len() == 0 {
        Seq::empty()
    } else {
        let rest = jobs_without(jobs.drop_last(), id);
        if jobs.last().id == id {
            rest
        } else {
            rest.push(jobs.last())
        }
    }
}

pub fn remove_job(jobs: Vec<JobRow>, id: &str) -> (r: Vec<JobRow>)
    ensures
        job_models(r@) == jobs_without(job_models(jobs@), id@),
{
    let ghost all = jobs@;
    let ghost models = job_models(all);
    let mut rest = jobs;
    let mut out: Vec<JobRow> = Vec::new();
    let ghost mut i: int = 0;
    assert(all.skip(0) =~= all);
    assert(job_models(out@) =~= jobs_without(models.take(0), id@));
    while rest.len() > 0
        invariant
            0 <= i <= all.len(),
            all == jobs@,
            models == job_models(all),
            rest@ == all.skip(i),
            job_models(out@) == jobs_without(models.take(i), id@),
        decreases rest@.len(),
    {
        let row = rest.remove(0);
        proof {
            assert(row == all[i]);
            assert(models.take(i + 1).drop_last() =~= models.take(i));
            assert(models.take(i + 1).last() == row@);
            assert(job_models(out@.push(row)) =~= job_models(out@).push(row@));
            assert(rest@ =~= all.skip(i + 1));
            i = i + 1;
        }
        if !text::str_eq(row.id.as_str(), id) {
            out.push(row);
        }
    }
    assert(models.take(i) =~= models);
    out
}

/// The crons without those that have this ID.
pub open spec fn crons_without(crons: Seq<CronRowModel>, id: Text) -> Seq<CronRowModel>
    decreases crons.len(),
{
    if crons.len() == 0 {
        Seq::empty()
    } else {
        let rest = crons_without(crons.drop_last(), id);
        if crons.last().id == id {
            rest
        } else {
            rest.push(crons.last())
        }
    }
}

pub fn remove_cron(crons: Vec<CronRow>, id: &str) -> (r: Vec<CronRow>)
    ensures
        cron_models(r@) == crons_without(cron_models(crons@), id@),
{
    let ghost all = crons@;
    let ghost models = cron_models(all);
    let mut rest = crons;
    let mut out: Vec<CronRow> = Vec::new();
    let ghost mut i: int = 0;
    assert(all.skip(0) =~= all);
    assert(cron_models(out@) =~= crons_without(models.take(0), id@));
    while rest.len() > 0
        invariant
            0 <= i <= all.len(),
            all == crons@,
            models == cron_models(all),
            rest@ == all.skip(i),
            cron_models(out@) == crons_without(models.take(i), id@),
        decreases rest@.len(),
    {
        let row = rest.remove(0);
        proof {
            assert(row == all[i]);
            assert(models.take(i + 1).drop_last() =~= models.take(i));
            assert(models.take(i + 1).last() == row@);
            assert(cron_models(out@.push(row)) =~= cron_models(out@).push(row@));
            assert(rest@ =~= all.skip(i + 1));
            i = i + 1;
        }
        if !text::str_eq(row.id.as_str(), id) {
            out.push(row);
        }
    }
    assert(models.take(i) =~= models);
    out
}

/// The crons with one brought up to date, or added.
pub open spec fn cron_upserted(
    crons: Seq<CronRowModel>,
    id: Text,
    label: Text,
    status: CronStatus,
) -> Seq<CronRowModel> {
    match cron_from(crons, id, 0) {
        Some(i) => crons.update(
            i,
            CronRowModel {
                label: if label.len() > 0 {
                    label
                } else {
                    crons[i].label
                },
                status,
                ..crons[i]
            },
        ),
        None => crons.push(CronRowModel { id, label, status }),
    }
}

pub fn upsert_cron_row(crons: &mut Vec<CronRow>, id: String, label: String, status: CronStatus)
    ensures
        cron_models(final(crons)@) == cron_upserted(cron_models(old(crons)@), id@, label@, status),
{
    let ghost before = crons@;
    if let Some(i) = find_cron(crons, id.as_str()) {
        assert(cron_models(before)[i as int] == before[i as int]@);
        if label.as_str().unicode_len() > 0 {
            crons[i].label = label;
        }
        crons[i].status = status;
        proof {
            let expected = CronRowModel {
                label: if label@.len() > 0 {
                    label@
                } else {
                    before[i as int]@.label
                },
                status,
                ..before[i as int]@
            };
            assert(crons@[i as int]@ == expected);
            assert(cron_models(crons@) =~= cron_models(before).update(i as int, expected));
        }
        return;
    }
    let row = CronRow { id, label, status };
    assert(cron_models(before.push(row)) =~= cron_models(before).push(row@));
    crons.push(row);
}

// ── Lists from the daemon ──

pub open spec fn job_row_of(info: JobInfo) -> JobRowModel {
    JobRowModel {
        id: info.id@,
        label: info.pipeline@,
        status: info.status,
        start_scope: text::opt_text(info.start_scope),
        end_scope: text::opt_text(info.end_scope),
        open_hint: info.open_hint,
    }
}

pub open spec fn job_rows_of(list: Seq<JobInfo>) -> Seq<JobRowModel> {
    list.map_values(|i: JobInfo| job_row_of(i))
}

pub open spec fn cron_row_of(info: CronInfo) -> CronRowModel {
    CronRowModel {
        id: info.id@,
        label: info.schedule@ + " "@ + info.command@,
        status: info.status,
    }
}

pub open spec fn cron_rows_of(list: Seq<CronInfo>) -> Seq<CronRowModel> {
    list.map_values(|i: CronInfo| cron_row_of(i))
}

pub fn job_rows(list: &Vec<JobInfo>) -> (r: Vec<JobRow>)
    ensures
        job_models(r@) == job_rows_of(list@),
{
    let mut out: Vec<JobRow> = Vec::new();
    let mut i: usize = 0;
    let ghost all = job_rows_of(list@);
    assert(job_models(out@) =~= all.take(0));
    while i < list.len()
        invariant
            i <= list@.len(),
            all == job_rows_of(list@),
            job_models(out@) == all.take(i as int),
        decreases list@.len() - i,
    {
        let info = &list[i];
        let row = JobRow {
            id: info.id.clone(),
            label: info.pipeline.clone(),
            status: info.status,
            start_scope: text::clone_opt(&info.start_scope),
            end_scope: text::clone_opt(&info.end_scope),
            open_hint: info.open_hint,
        };
        proof {
            assert(row@ == all[i as int]);
            assert(job_models(out@.push(row)) =~= job_models(out@).push(row@));
            assert(all.take(i + 1) =~= all.take(i as int).push(all[i as int]));
        }
        out.push(row);
        i = i + 1;
    }
    assert(all.take(i as int) =~= all);
    out
}

pub fn cron_rows(list: &Vec<CronInfo>) -> (r: Vec<CronRow>)
    ensures
        cron_models(r@) == cron_rows_of(list@),
{
    let mut out: Vec<CronRow> = Vec::new();
    let mut i: usize = 0;
    let ghost all = cron_rows_of(list@);
    assert(cron_models(out@) =~= all.take(0));
    while i < list.len()
        invariant
            i <= list@.len(),
            all == cron_rows_of(list@),
            cron_models(out@) == all.take(i as int),
        decreases list@.len() - i,
    {
        let info = &list[i];
        let row = CronRow {
            id: info.id.clone(),
            label: text::concat3(info.schedule.as_str(), " ", info.command.as_str()),
            status: info.status,
        };
        proof {
            assert(row@ == all[i as int]);
            assert(cron_models(out@.push(row)) =~= cron_models(out@).push(row@));
            assert(all.take(i + 1) =~= all.take(i as int).push(all[i as int]));
        }
        out.push(row);
        i = i + 1;
    }
    assert(all.take(i as int) =~= all);
    out
}

// ── Entries of the sidebar, newest first ──

pub open spec fn job_item(job: JobRowModel) -> SidebarItemModel {
    SidebarItemModel { id: job.id, label: job.label, status_icon: job_icon(job.status) }
}

pub open spec fn cron_item(cron: CronRowModel) -> SidebarItemModel {
    SidebarItemModel { id: cron.id, label: cron.label, status_icon: cron_icon(cron.status) }
}

pub open spec fn job_items(jobs: Seq<JobRowModel>) -> Seq<SidebarItemModel> {
    Seq::new(jobs.len(), |i: int| job_item(jobs[jobs.len() - 1 - i]))
}

pub open spec fn cron_items(crons: Seq<CronRowModel>) -> Seq<SidebarItemModel> {
    Seq::new(crons.len(), |i: int| cron_item(crons[crons.len() - 1 - i]))
}

pub fn job_sidebar_items(jobs: &Vec<JobRow>) -> (r: Vec<SidebarItem>)
    ensures
        item_models(r@) == job_items(job_models(jobs@)),
{
    let mut out: Vec<SidebarItem> = Vec::new();
    let mut i: usize = 0;
    let ghost all = job_items(job_models(jobs@));
    assert(item_models(out@) =~= all.take(0));
    while i < jobs.len()
        invariant
            i <= jobs@.len(),
            all == job_items(job_models(jobs@)),
            item_models(out@) == all.take(i as int),
        decreases jobs@.len() - i,
    {
        let job = &jobs[jobs.len() - 1 - i];
        assert(job_models(jobs@)[jobs@.len() - 1 - i] == job@);
        let item = SidebarItem {
            id: job.id.clone(),
            label: job.label.clone(),
            status_icon: job_status_icon(job.status),
        };
        proof {
            assert(item@ == all[i as int]);
            assert(item_models(out@.push(item)) =~= item_models(out@).push(item@));
            assert(all.take(i + 1) =~= all.take(i as int).push(all[i as int]));
        }
        out.push(item);
        i = i + 1;
    }
    assert(all.take(i as int) =~= all);
    out
}

pub fn cron_sidebar_items(crons: &Vec<CronRow>) -> (r: Vec<SidebarItem>)
    ensures
        item_models(r@) == cron_items(cron_models(crons@)),
{
    let mut out: Vec<SidebarItem> = Vec::new();
    let mut i: usize = 0;
    let ghost all = cron_items(cron_models(crons@));
    assert(item_models(out@) =~= all.take(0));
    while i < crons.len()
        invariant
            i <= crons@.len(),
            all == cron_items(cron_models(crons@)),
            item_models(out@) == all.take(i as int),
        decreases crons@.len() - i,
    {
        let cron = &crons[crons.len() - 1 - i];
        assert(cron_models(crons@)[crons@.len() - 1 - i] == cron@);
        let item = SidebarItem {
            id: cron.id.clone(),
            label: cron.label.clone(),
            status_icon: cron_status_icon(cron.status),
        };
        proof {
            assert(item@ == all[i as int]);
            assert(item_models(out@.push(item)) =~= item_models(out@).push(item@));
            assert(all.take(i + 1) =~= all.take(i as int).push(all[i as int]));
        }
        out.push(item);
        i = i + 1;
    }
    assert(all.take(i as int) =~= all);
    out
}

// ── Entries of the picker ──

pub open spec fn picker_models(v: Seq<JobPickerItem>) -> Seq<PickerItemModel> {
    v.map_values(|i: JobPickerItem| i@)
}

/// The running jobs, oldest first.
pub open spec fn running_items(jobs: Seq<JobRowModel>) -> Seq<PickerItemModel>
    decreases jobs.len(),
{
    if jobs.len() == 0 {
        Seq::empty()
    } else {
        let rest = running_items(jobs.drop_last());
        let job = jobs.last();
        if job.status == JobStatus::Running {
            rest.push(
                PickerItemModel { id: job.id, label: job.label, status_icon: job_icon(job.status) },
            )
        } else {
            rest
        }
    }
}

/// All crons, oldest first.
pub open spec fn picker_crons(crons: Seq<CronRowModel>) -> Seq<PickerItemModel> {
    crons.map_values(
        |c: CronRowModel|
            PickerItemModel { id: c.id, label: c.label, status_icon: cron_icon(c.status) },
    )
}

pub fn running_job_items(jobs: &Vec<JobRow>) -> (r: Vec<JobPickerItem>)
    ensures
        picker_models(r@) == running_items(job_models(jobs@)),
{
    let mut out: Vec<JobPickerItem> = Vec::new();
    let mut i: usize = 0;
    let ghost all = job_models(jobs@);
    assert(picker_models(out@) =~= running_items(all.take(0)));
    while i < jobs.len()
        invariant
            i <= jobs@.len(),
            all == job_models(jobs@),
            picker_models(out@) == running_items(all.take(i as int)),
        decreases jobs@.len() - i,
    {
        proof {
            assert(all.take(i + 1).drop_last() =~= all.take(i as int));
            assert(all.take(i + 1).last() == jobs@[i as int]@);
        }
        let record = JobPickerRecord {
            id: jobs[i].id.as_str(),
            label: jobs[i].label.as_str(),
            status: jobs[i].status,
        };
        if let Some(item) = job_picker_item(record) {
            assert(picker_models(out@.push(item)) =~= picker_models(out@).push(item@));
            out.push(item);
        }
        i = i + 1;
    }
    assert(all.take(i as int) =~= all);
    out
}

pub fn cron_picker_items(crons: &Vec<CronRow>) -> (r: Vec<JobPickerItem>)
    ensures
        picker_models(r@) == picker_crons(cron_models(crons@)),
{
    let mut out: Vec<JobPickerItem> = Vec::new();
    let mut i: usize = 0;
    let ghost all = picker_crons(cron_models(crons@));
    assert(picker_models(out@) =~= all.take(0));
    while i < crons.len()
        invariant
            i <= crons@.len(),
            all == picker_crons(cron_models(crons@)),
            picker_models(out@) == all.take(i as int),
        decreases crons@.len() - i,
    {
        let item = cron_picker_item(
            CronPickerRecord {
                id: crons[i].id.as_str(),
                label: crons[i].label.as_str(),
                status: crons[i].status,
            },
        );
        proof {
            assert(item@ == all[i as int]);
            assert(picker_models(out@.push(item)) =~= picker_models(out@).push(item@));
            assert(all.take(i + 1) =~= all.take(i as int).push(all[i as int]));
        }
        out.push(item);
        i = i + 1;
    }
    assert(all.take(i as int) =~= all);
    out
}

// ── IDs and counts ──

pub open spec fn job_ids(jobs: Seq<JobRowModel>) -> Seq<Text> {
    jobs.map_values(|j: JobRowModel| j.id)
}

pub open spec fn cron_ids(crons: Seq<CronRowModel>) -> Seq<Text> {
    crons.map_values(|c: CronRowModel| c.id)
}

pub fn ids_of_jobs(jobs: &Vec<JobRow>) -> (r: Vec<String>)
    ensures
        text::texts(r@) == job_ids(job_models(jobs@)),
{
    let mut out = no_lines();
    let mut i: usize = 0;
    let ghost all = job_ids(job_models(jobs@));
    assert(text::texts(out@) =~= all.take(0));
    while i < jobs.len()
        invariant
            i <= jobs@.len(),
            all == job_ids(job_models(jobs@)),
            text::texts(out@) == all.take(i as int),
        decreases jobs@.len() - i,
    {
        push_line(&mut out, jobs[i].id.clone());
        assert(all.take(i + 1) =~= all.take(i as int).push(all[i as int]));
        i = i + 1;
    }
    assert(all.take(i as int) =~= all);
    out
}

pub fn ids_of_crons(crons: &Vec<CronRow>) -> (r: Vec<String>)
    ensures
        text::texts(r@) == cron_ids(cron_models(crons@)),
{
    let mut out = no_lines();
    let mut i: usize = 0;
    let ghost all = cron_ids(cron_models(crons@));
    assert(text::texts(out@) =~= all.take(0));
    while i < crons.len()
        invariant
            i <= crons@.len(),
            all == cron_ids(cron_models(crons@)),
            text::texts(out@) == all.take(i as int),
        decreases crons@.len() - i,
    {
        push_line(&mut out, crons[i].id.clone());
        assert(all.take(i + 1) =~= all.take(i as int).push(all[i as int]));
        i = i + 1;
    }
    assert(all.take(i as int) =~= all);
    out
}

pub open spec fn running_count(jobs: Seq<JobRowModel>) -> nat
    decreases jobs.len(),
{
    if jobs.len() == 0 {
        0
    } else {
        running_count(jobs.drop_last()) + if jobs.last().status == JobStatus::Running {
            1nat
        } else {
            0nat
        }
    }
}

pub fn count_running(jobs: &Vec<JobRow>) -> (r: usize)
    ensures
        r == running_count(job_models(jobs@)),
{
    let mut n: usize = 0;
    let mut i: usize = 0;
    let ghost all = job_models(jobs@);
    while i < jobs.len()
        invariant
            n <= i <= jobs@.len(),
            all == job_models(jobs@),
            n == running_count(all.take(i as int)),
        decreases jobs@.len() - i,
    {
        proof {
            assert(all.take(i + 1).drop_last() =~= all.take(i as int));
            assert(all.take(i + 1).last() == jobs@[i as int]@);
        }
        if let JobStatus::Running = jobs[i].status {
            n = n + 1;
        }
        i = i + 1;
    }
    assert(all.take(i as int) =~= all);
    n
}

// ── Records ──

/// What a record of a job shows.
pub open spec fn record_of(job: JobRowModel) -> JobRecordModel {
    JobRecordModel {
        id: job.id,
        status: job.status,
        start_scope: job.start_scope,
        end_scope: job.end_scope,
        warnings: Seq::empty(),
        pending_reason: None,
    }
}

pub open spec fn opt_record_of(job: Option<JobRowModel>) -> Option<JobRecordModel> {
    match job {
        Some(j) => Some(record_of(j)),
        None => None,
    }
}

/// An optional string by reference.
pub fn opt_ref(s: &Option<String>) -> (r: Option<&str>)
    ensures
        text::opt_str(r) == text::opt_text(*s),
{
    match s {
        Some(t) => Some(t.as_str()),
        None => None,
    }
}

pub fn record_for<'a>(job: &'a JobRow, none: &'a Vec<String>) -> (r: JobRecord<'a>)
    requires
        none@.len() == 0,
    ensures
        r@ == record_of(job@),
{
    let r = JobRecord {
        id: job.id.as_str(),
        status: job.status,
        start_scope: opt_ref(&job.start_scope),
        end_scope: opt_ref(&job.end_scope),
        warnings: none,
        pending_reason: None,
    };
    assert(text::texts(none@) =~= Seq::<Text>::empty());
    r
}

// ── Laws ──

/// A job brought up to date is found with its new status.
pub proof fn lemma_upserted_job_found(
    jobs: Seq<JobRowModel>,
    id: Text,
    label: Text,
    status: JobStatus,
    start_scope: Option<Text>,
    open_hint: JobOpenHint,
)
    ensures
        job_with(job_upserted(jobs, id, label, status, start_scope, open_hint), id) matches Some(j)
            && j.id == id && j.status == status,
{
    let after = job_upserted(jobs, id, label, status, start_scope, open_hint);
    lemma_job_from(jobs, id, 0);
    lemma_job_from_same(jobs, after, id, 0);
    lemma_job_from(after, id, 0);
}

/// The same IDs in the same places are found in the same places.
pub proof fn lemma_job_from_same(
    jobs: Seq<JobRowModel>,
    after: Seq<JobRowModel>,
    id: Text,
    i: int,
)
    requires
        0 <= i,
        jobs.len() <= after.len(),
        forall|k: int| 0 <= k < jobs.len() ==> (#[trigger] after[k]).id == jobs[k].id,
        after.len() == jobs.len() || (after.len() == jobs.len() + 1 && after.last().id == id),
    ensures
        job_from(after, id, i) == match job_from(jobs, id, i) {
            Some(k) => Some(k),
            None => if after.len() > jobs.len() && i <= jobs.len() {
                Some(jobs.len() as int)
            } else {
                None
            },
        },
    decreases after.len() - i,
{
    if i < after.len() {
        if i < jobs.len() {
            assert(after[i].id == jobs[i].id);
        }
        lemma_job_from_same(jobs, after, id, i + 1);
    }
}

/// A removed job is not found.
pub proof fn lemma_removed_job_gone(jobs: Seq<JobRowModel>, id: Text)
    ensures
        forall|k: int|
            0 <= k < jobs_without(jobs, id).len() ==> (#[trigger] jobs_without(jobs, id)[k]).id
                != id,
    decreases jobs.len(),
{
    if jobs.len() > 0 {
        lemma_removed_job_gone(jobs.drop_last(), id);
    }
}

} // verus!
