//! What opening a record does.

use vstd::prelude::*;
use vstd::string::*;

use crate::job::{terminal_status, JobStatus};
use crate::text;
use crate::text::Text;
use crate::tui::display::{DisplayPreview, PreviewModel};
use crate::tui::main_view::{Card, CardModel};
use crate::tui::record_format::{card_preview, format_card_preview};

verus! {

/// The job of a record.
pub struct CardJob<'a> {
    pub id: &'a str,
    pub status: JobStatus,
}

#[derive(Debug, PartialEq, Eq)]
#[allow(inconsistent_fields)]
pub enum CardAction {
    Foreground { job_id: String },
    Tail { job_id: String },
    Preview(DisplayPreview),
}

/// An action over character sequences.
#[allow(inconsistent_fields)]
pub enum CardActionModel {
    Foreground { job_id: Text },
    Tail { job_id: Text },
    Preview(PreviewModel),
}

impl View for CardAction {
    type V = CardActionModel;

    open spec fn view(&self) -> CardActionModel {
        match self {
            CardAction::Foreground { job_id } => CardActionModel::Foreground { job_id: job_id@ },
            CardAction::Tail { job_id } => CardActionModel::Tail { job_id: job_id@ },
            CardAction::Preview(p) => CardActionModel::Preview(p@),
        }
    }
}

/// The preview of the record at `index`.
pub open spec fn preview_of(index: nat, card: CardModel) -> PreviewModel {
    PreviewModel {
        key: "card:"@ + text::decimal(index),
        title: match card.label {
            Some(label) => "record "@ + label,
            None => "record"@,
        },
        content: card_preview(card),
    }
}

/// A running job is brought to the foreground, the output of an ended one is
/// shown, and anything else is previewed.
pub open spec fn card_action(
    index: nat,
    card: CardModel,
    job: Option<(Text, JobStatus)>,
) -> CardActionModel {
    match job {
        Some((id, status)) => if status == JobStatus::Running {
            CardActionModel::Foreground { job_id: id }
        } else if terminal_status(status) {
            CardActionModel::Tail { job_id: id }
        } else {
            CardActionModel::Preview(preview_of(index, card))
        },
        None => CardActionModel::Preview(preview_of(index, card)),
    }
}

/// The preview of the record at `index`.
pub fn preview_card(index: usize, card: &Card) -> (r: DisplayPreview)
    ensures
        r@ == preview_of(index as nat, card@),
{
    let number = text::decimal_usize(index);
    let key = text::concat2("card:", number.as_str());
    let title = match &card.label {
        Some(label) => text::concat2("record ", label.as_str()),
        None => "record".to_owned(),
    };
    DisplayPreview { key, title, content: format_card_preview(card) }
}

pub fn inspect_card_action(index: usize, card: &Card, job: Option<CardJob<'_>>) -> (r: CardAction)
    ensures
        r@ == card_action(
            index as nat,
            card@,
            match job {
                Some(j) => Some((j.id@, j.status)),
                None => None,
            },
        ),
{
    if let Some(j) = job {
        if let JobStatus::Running = j.status {
            return CardAction::Foreground { job_id: j.id.to_owned() };
        }
        if j.status.is_terminal() {
            return CardAction::Tail { job_id: j.id.to_owned() };
        }
    }
    CardAction::Preview(preview_card(index, card))
}

} // verus!
