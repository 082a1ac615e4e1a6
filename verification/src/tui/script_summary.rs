//! Script submissions as text.

use vstd::prelude::*;
use vstd::string::*;

use crate::parser::resolved::ScriptSource;
use crate::text;
use crate::text::Text;
use crate::tui::ipc::{ScriptItemInfo, ScriptItemResult, ScriptRunStatus, ScriptSubmitError};
use crate::tui::lines::{no_lines, push_empty, push_labelled, push_line};

verus! {

/// The first `max` characters, with dots if there are more.
pub open spec fn truncated(text: Text, max: nat) -> Text {
    if text.len() > max {
        text.take(max as int) + "..."@
    } else {
        text
    }
}

/// A source on one line, with single spaces, cut at 96 characters.
pub open spec fn summary(source: Text) -> Text {
    truncated(text::join(text::words(source), " "@), 96)
}

fn truncate_text(text: &str, max_chars: usize) -> (r: String)
    ensures
        r@ == truncated(text@, max_chars as nat),
{
    let v = text::chars_of(text);
    if v.len() > max_chars {
        let head = text::string_of(&v, 0, max_chars);
        assert(head@ =~= text@.take(max_chars as int));
        text::concat2(head.as_str(), "...")
    } else {
        text.to_owned()
    }
}

pub fn summarize_source(source: &str) -> (r: String)
    ensures
        r@ == summary(source@),
{
    let parts = text::chars_words(&text::chars_of(source));
    let compact = text::join_strings(&parts, " ");
    truncate_text(compact.as_str(), 96)
}

/// What became of a command, in short.
pub open spec fn item_result_text(result: ScriptItemResult) -> Text {
    match result {
        ScriptItemResult::Job { job_id, .. } => job_id@,
        ScriptItemResult::Chain { chain_id, job_ids, .. } => if job_ids@.len() == 0 {
            chain_id@
        } else {
            chain_id@ + " ["@ + text::join(text::texts(job_ids@), ", "@) + "]"@
        },
        ScriptItemResult::Cron { cron_id } => cron_id@,
        ScriptItemResult::Message { text } => summary(text@),
    }
}

fn format_item_result(result: &ScriptItemResult) -> (r: String)
    ensures
        r@ == item_result_text(*result),
{
    match result {
        ScriptItemResult::Job { job_id, .. } => job_id.clone(),
        ScriptItemResult::Chain { chain_id, job_ids, .. } => {
            if job_ids.len() == 0 {
                chain_id.clone()
            } else {
                text::concat4(chain_id.as_str(), " [", text::join_strings(job_ids, ", ").as_str(), "]")
            }
        },
        ScriptItemResult::Cron { cron_id } => cron_id.clone(),
        ScriptItemResult::Message { text } => summarize_source(text.as_str()),
    }
}

/// The line on one command.
pub open spec fn item_line(item: ScriptItemInfo) -> Text {
    text::decimal((item.index + 1) as nat) + ". "@ + summary(item.source@) + " -> "@ + item_result_text(
        item.result,
    )
}

pub open spec fn item_lines(items: Seq<ScriptItemInfo>) -> Seq<Text> {
    items.map_values(|i: ScriptItemInfo| item_line(i))
}

/// The lines on where the script was stopped.
pub open spec fn error_lines(error: Option<ScriptSubmitError>) -> Seq<Text> {
    match error {
        Some(e) => seq![
            Seq::empty(),
            "submit stopped at "@ + text::decimal((e.index + 1) as nat) + ". "@ + summary(e.source@)
                + " ["@ + e.code@ + "]: "@ + e.message@,
        ],
        None => Seq::empty(),
    }
}

pub open spec fn source_lines(source: ScriptSource) -> Seq<Text> {
    match source {
        ScriptSource::File { path } => seq!["source: "@ + path@],
        ScriptSource::Inline => Seq::empty(),
    }
}

/// A submission as text.
pub open spec fn submission_text(
    source: ScriptSource,
    items: Seq<ScriptItemInfo>,
    error: Option<ScriptSubmitError>,
) -> Text {
    text::join(
        seq!["submitted "@ + text::decimal(items.len()) + " item(s)"@] + source_lines(source)
            + item_lines(items) + error_lines(error),
        "\n"@,
    )
}

pub fn format_submission(
    source: &ScriptSource,
    items: &Vec<ScriptItemInfo>,
    submit_error: &Option<ScriptSubmitError>,
) -> (r: String)
    ensures
        r@ == submission_text(*source, items@, *submit_error),
{
    let mut lines = no_lines();
    push_line(
        &mut lines,
        text::concat3("submitted ", text::decimal_usize(items.len()).as_str(), " item(s)"),
    );
    let ghost head = seq!["submitted "@ + text::decimal(items@.len()) + " item(s)"@];
    assert(text::texts(lines@) =~= head);
    if let ScriptSource::File { path } = source {
        push_labelled(&mut lines, "source: ", path.as_str());
    }
    let ghost start = head + source_lines(*source);
    let ghost want = item_lines(items@);
    let mut i: usize = 0;
    assert(text::texts(lines@) =~= start + want.take(0));
    while i < items.len()
        invariant
            i <= items@.len(),
            want == item_lines(items@),
            text::texts(lines@) == start + want.take(i as int),
        decreases items@.len() - i,
    {
        let item = &items[i];
        let line = text::concat5(
            text::decimal_after(item.index).as_str(),
            ". ",
            summarize_source(item.source.as_str()).as_str(),
            " -> ",
            format_item_result(&item.result).as_str(),
        );
        proof {
            assert(line@ == item_line(*item));
            assert(want.take(i + 1) =~= want.take(i as int).push(line@));
            assert((start + want.take(i as int)).push(line@) =~= start + want.take(i + 1));
        }
        push_line(&mut lines, line);
        i = i + 1;
    }
    assert(want.take(i as int) =~= want);
    if let Some(e) = submit_error {
        push_empty(&mut lines);
        let mut line = text::concat4(
            "submit stopped at ",
            text::decimal_after(e.index).as_str(),
            ". ",
            summarize_source(e.source.as_str()).as_str(),
        );
        line.append(" [");
        line.append(e.code.as_str());
        line.append("]: ");
        line.append(e.message.as_str());
        push_line(&mut lines, line);
    }
    assert(text::texts(lines@) =~= start + want + error_lines(*submit_error));
    text::join_strings(&lines, "\n")
}

pub open spec fn run_status_name(status: ScriptRunStatus) -> Text {
    match status {
        ScriptRunStatus::Submitted => "Submitted"@,
        ScriptRunStatus::PartialError => "PartialError"@,
        ScriptRunStatus::Done => "Done"@,
        ScriptRunStatus::Failed => "Failed"@,
    }
}

fn status_name(status: ScriptRunStatus) -> (r: &'static str)
    ensures
        r@ == run_status_name(status),
{
    match status {
        ScriptRunStatus::Submitted => "Submitted",
        ScriptRunStatus::PartialError => "PartialError",
        ScriptRunStatus::Done => "Done",
        ScriptRunStatus::Failed => "Failed",
    }
}

/// A number that may be negative.
pub open spec fn signed_decimal(n: int) -> Text {
    if n < 0 {
        "-"@ + text::decimal((-n) as nat)
    } else {
        text::decimal(n as nat)
    }
}

fn decimal_i32(n: i32) -> (r: String)
    ensures
        r@ == signed_decimal(n as int),
{
    if n < 0 {
        let m: i64 = -(n as i64);
        text::concat2("-", text::decimal_u64(m as u64).as_str())
    } else {
        text::decimal_u64(n as u64)
    }
}

/// The end of a script run as text.
pub fn format_finished(
    status: ScriptRunStatus,
    exit_code: i32,
    failed_item_index: Option<usize>,
) -> (r: String)
    ensures
        r@ == "\nscript finished: "@ + run_status_name(status) + ", exit="@ + signed_decimal(
            exit_code as int,
        ) + match failed_item_index {
            Some(i) => " (failed at item "@ + text::decimal((i + 1) as nat) + ")"@,
            None => Seq::empty(),
        },
{
    let mut r = text::concat4(
        "\nscript finished: ",
        status_name(status),
        ", exit=",
        decimal_i32(exit_code).as_str(),
    );
    let ghost head = r@;
    if let Some(i) = failed_item_index {
        let tail = text::concat3(" (failed at item ", text::decimal_after(i).as_str(), ")");
        r.append(tail.as_str());
    }
    assert(failed_item_index is None ==> r@ =~= head + Seq::<char>::empty());
    r
}

} // verus!
