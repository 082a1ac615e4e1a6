//! Records of jobs, crons and cards as text.

use vstd::prelude::*;
use vstd::string::*;

use crate::cron::CronStatus;
use crate::job::{terminal_status, JobStatus};
use crate::text;
use crate::text::Text;
use crate::tui::ipc::JobInfo;
use crate::tui::lines::{no_lines, push_empty, push_labelled, push_line};
use crate::tui::main_view::{Card, CardModel, CardStatus};
use crate::tui::status_view::{cron_status_text, cron_text, job_status_text, job_text};

verus! {

/// What is known of a job.
pub struct JobRecord<'a> {
    pub id: &'a str,
    pub status: JobStatus,
    pub start_scope: Option<&'a str>,
    pub end_scope: Option<&'a str>,
    pub warnings: &'a Vec<String>,
    pub pending_reason: Option<&'a str>,
}

pub open spec fn card_status_text(status: CardStatus) -> Text {
    match status {
        CardStatus::Success => "success"@,
        CardStatus::Error => "error"@,
        CardStatus::Pending => "pending"@,
        CardStatus::Streaming => "streaming"@,
    }
}

fn card_status_name(status: CardStatus) -> (r: &'static str)
    ensures
        r@ == card_status_text(status),
{
    match status {
        CardStatus::Success => "success",
        CardStatus::Error => "error",
        CardStatus::Pending => "pending",
        CardStatus::Streaming => "streaming",
    }
}

/// A line with a label, if there is something to show.
pub open spec fn opt_line(head: Text, tail: Option<Text>) -> Seq<Text> {
    match tail {
        Some(t) => seq![head + t],
        None => Seq::empty(),
    }
}

fn push_opt(lines: &mut Vec<String>, head: &str, tail: Option<&str>)
    ensures
        text::texts(final(lines)@) == text::texts(old(lines)@) + opt_line(head@, text::opt_str(tail)),
{
    let ghost before = text::texts(lines@);
    if let Some(t) = tail {
        push_labelled(lines, head, t);
    }
    assert(text::texts(lines@) =~= before + opt_line(head@, text::opt_str(tail)));
}

fn as_opt_str(s: &Option<String>) -> (r: Option<&str>)
    ensures
        text::opt_str(r) == text::opt_text(*s),
{
    match s {
        Some(t) => Some(t.as_str()),
        None => None,
    }
}

/// The lines that show a card.
pub open spec fn card_lines(card: CardModel) -> Seq<Text> {
    seq![
        "mode: "@ + card.mode.label_text(),
        "input: "@ + card.input,
        "status: "@ + card_status_text(card.status),
    ] + opt_line("label: "@, card.label) + if card.output.len() > 0 {
        seq![Seq::empty(), card.output]
    } else {
        Seq::empty()
    }
}

/// A card as text.
pub open spec fn card_preview(card: CardModel) -> Text {
    text::join(card_lines(card), "\n"@)
}

pub fn format_card_preview(card: &Card) -> (r: String)
    ensures
        r@ == card_preview(card@),
{
    let mut lines = no_lines();
    push_labelled(&mut lines, "mode: ", card.mode.label());
    push_labelled(&mut lines, "input: ", card.input.as_str());
    push_labelled(&mut lines, "status: ", card_status_name(card.status));
    proof {
        assert(text::texts(lines@) =~= seq![
            "mode: "@ + card@.mode.label_text(),
            "input: "@ + card@.input,
            "status: "@ + card_status_text(card@.status),
        ]);
    }
    push_opt(&mut lines, "label: ", as_opt_str(&card.label));
    if card.output.as_str().unicode_len() > 0 {
        push_empty(&mut lines);
        push_line(&mut lines, card.output.clone());
    }
    assert(text::texts(lines@) =~= card_lines(card@));
    text::join_strings(&lines, "\n")
}

/// A cron as text.
pub open spec fn cron_preview(id: Text, label: Text, status: CronStatus) -> Text {
    "id: "@ + id + "\nstatus: "@ + cron_text(status) + "\n"@ + label
}

pub fn format_cron_preview(id: &str, label: &str, status: CronStatus) -> (r: String)
    ensures
        r@ == cron_preview(id@, label@, status),
{
    let mut r = text::concat4("id: ", id, "\nstatus: ", cron_status_text(status));
    r.append("\n");
    r.append(label);
    r
}

/// What is known of a job, over character sequences.
pub struct JobRecordModel {
    pub id: Text,
    pub status: JobStatus,
    pub start_scope: Option<Text>,
    pub end_scope: Option<Text>,
    pub warnings: Seq<Text>,
    pub pending_reason: Option<Text>,
}

impl<'a> View for JobRecord<'a> {
    type V = JobRecordModel;

    open spec fn view(&self) -> JobRecordModel {
        JobRecordModel {
            id: self.id@,
            status: self.status,
            start_scope: text::opt_str(self.start_scope),
            end_scope: text::opt_str(self.end_scope),
            warnings: text::texts(self.warnings@),
            pending_reason: text::opt_str(self.pending_reason),
        }
    }
}

/// The line on the scope that a finished job left.
pub open spec fn end_scope_lines(job: JobRecordModel) -> Seq<Text> {
    match job.end_scope {
        Some(end) if terminal_status(job.status) => if job.start_scope == Some(end) {
            seq!["end scope: no side effect ("@ + end + ")"@]
        } else {
            seq!["end scope: "@ + end]
        },
        _ => Seq::empty(),
    }
}

/// The lines that show a job: warnings set off above, then what is known.
pub open spec fn job_lines(job: JobRecordModel) -> Seq<Text> {
    (if job.warnings.len() > 0 {
        job.warnings.push(Seq::empty())
    } else {
        job.warnings
    }) + seq![job.id, "status: "@ + job_text(job.status)] + opt_line(
        "pending reason: "@,
        job.pending_reason,
    ) + opt_line("start scope: "@, job.start_scope) + end_scope_lines(job)
}

/// A job as text.
pub open spec fn job_record(job: JobRecordModel) -> Text {
    text::join(job_lines(job), "\n"@)
}

fn opt_eq(a: Option<&str>, b: &str) -> (r: bool)
    ensures
        r == (text::opt_str(a) == Some(b@)),
{
    match a {
        Some(x) => text::str_eq(x, b),
        None => false,
    }
}

pub fn format_job_record(record: JobRecord<'_>) -> (r: String)
    ensures
        r@ == job_record(record@),
{
    let ghost m = record@;
    let mut lines = text::clone_strings(record.warnings);
    if lines.len() > 0 {
        push_empty(&mut lines);
    }
    let ghost head = text::texts(lines@);
    proof {
        assert(head =~= if m.warnings.len() > 0 {
            m.warnings.push(Seq::empty())
        } else {
            m.warnings
        });
    }
    push_line(&mut lines, record.id.to_owned());
    push_labelled(&mut lines, "status: ", job_status_text(record.status).as_str());
    proof {
        assert(text::texts(lines@) =~= head + seq![m.id, "status: "@ + job_text(m.status)]);
    }
    push_opt(&mut lines, "pending reason: ", record.pending_reason);
    push_opt(&mut lines, "start scope: ", record.start_scope);
    let ghost before = text::texts(lines@);
    if record.status.is_terminal() {
        if let Some(end) = record.end_scope {
            if opt_eq(record.start_scope, end) {
                push_line(&mut lines, text::concat3("end scope: no side effect (", end, ")"));
            } else {
                push_labelled(&mut lines, "end scope: ", end);
            }
        }
    }
    proof {
        assert(text::texts(lines@) =~= before + end_scope_lines(m));
        assert(text::texts(lines@) =~= job_lines(m));
    }
    text::join_strings(&lines, "\n")
}

/// A triggered cron and its job as text.
pub open spec fn cron_trigger_record(
    cron_id: Text,
    cron_label: Text,
    cron_status: CronStatus,
    job: Option<JobRecordModel>,
) -> Text {
    text::join(
        seq![
            "cron: "@ + cron_id,
            "cron status: "@ + cron_text(cron_status),
            "definition: "@ + cron_label,
            Seq::empty(),
            match job {
                Some(j) => job_record(j),
                None => "job: awaiting snapshot"@,
            },
        ],
        "\n"@,
    )
}

pub open spec fn opt_record(job: Option<JobRecord<'_>>) -> Option<JobRecordModel> {
    match job {
        Some(j) => Some(j@),
        None => None,
    }
}

pub fn format_cron_trigger_record(
    cron_id: &str,
    cron_label: &str,
    cron_status: CronStatus,
    job: Option<JobRecord<'_>>,
) -> (r: String)
    ensures
        r@ == cron_trigger_record(cron_id@, cron_label@, cron_status, opt_record(job)),
{
    let ghost m = opt_record(job);
    let mut lines = no_lines();
    push_labelled(&mut lines, "cron: ", cron_id);
    push_labelled(&mut lines, "cron status: ", cron_status_text(cron_status));
    push_labelled(&mut lines, "definition: ", cron_label);
    push_empty(&mut lines);
    let last = match job {
        Some(j) => format_job_record(j),
        None => "job: awaiting snapshot".to_owned(),
    };
    push_line(&mut lines, last);
    proof {
        assert(text::texts(lines@) =~= seq![
            "cron: "@ + cron_id@,
            "cron status: "@ + cron_text(cron_status),
            "definition: "@ + cron_label@,
            Seq::empty(),
            match m {
                Some(j) => job_record(j),
                None => "job: awaiting snapshot"@,
            },
        ]);
    }
    text::join_strings(&lines, "\n")
}

/// One job of a list as text.
pub open spec fn job_list_entry(job: JobInfo) -> Text {
    text::join(
        seq![job.id@ + " ["@ + job_text(job.status) + "] "@ + job.pipeline@] + opt_line(
            "  pending reason: "@,
            text::opt_text(job.pending_reason),
        ),
        "\n"@,
    )
}

pub open spec fn job_list_entries(jobs: Seq<JobInfo>) -> Seq<Text> {
    jobs.map_values(|j: JobInfo| job_list_entry(j))
}

pub fn format_job_list_snapshot(jobs: &Vec<JobInfo>) -> (r: String)
    ensures
        r@ == if jobs@.len() == 0 {
            "no jobs"@
        } else {
            text::join(job_list_entries(jobs@), "\n"@)
        },
{
    if jobs.len() == 0 {
        return "no jobs".to_owned();
    }
    let ghost want = job_list_entries(jobs@);
    let mut entries = no_lines();
    let mut i: usize = 0;
    assert(text::texts(entries@) =~= want.take(0));
    while i < jobs.len()
        invariant
            i <= jobs@.len(),
            want == job_list_entries(jobs@),
            text::texts(entries@) == want.take(i as int),
        decreases jobs@.len() - i,
    {
        let job = &jobs[i];
        let mut lines = no_lines();
        push_line(
            &mut lines,
            text::concat5(
                job.id.as_str(),
                " [",
                job_status_text(job.status).as_str(),
                "] ",
                job.pipeline.as_str(),
            ),
        );
        assert(text::texts(lines@) =~= seq![job.id@ + " ["@ + job_text(job.status) + "] "@
            + job.pipeline@]);
        push_opt(&mut lines, "  pending reason: ", as_opt_str(&job.pending_reason));
        let entry = text::join_strings(&lines, "\n");
        proof {
            assert(entry@ == job_list_entry(*job));
            assert(want.take(i + 1) =~= want.take(i as int).push(entry@));
        }
        push_line(&mut entries, entry);
        i = i + 1;
    }
    assert(want.take(i as int) =~= want);
    text::join_strings(&entries, "\n")
}

} // verus!
