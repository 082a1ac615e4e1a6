use cue_shell::job::{CancelReason, JobStatus};
use cue_shell::mode::Mode;
use cue_shell::tui::card_action::{inspect_card_action, CardAction, CardJob};
use cue_shell::tui::display::DisplayPreview;
use cue_shell::tui::main_view::{Card, CardStatus};

fn card(input: &str) -> Card {
    let mut card = Card::new(input.to_string(), Mode::Job);
    card.status = CardStatus::Success;
    card.output = "done".into();
    card
}

#[test]
fn inspect_card_action_foregrounds_running_jobs() {
    let card = card("vim notes.md");

    assert_eq!(
        inspect_card_action(
            3,
            &card,
            Some(CardJob {
                id: "J7",
                status: JobStatus::Running,
            }),
        ),
        CardAction::Foreground {
            job_id: "J7".into(),
        },
    );
}

#[test]
fn inspect_card_action_tails_terminal_jobs() {
    let card = card("cargo test");

    for status in [
        JobStatus::Done,
        JobStatus::Failed,
        JobStatus::Killed,
        JobStatus::Cancelled(CancelReason::User),
    ] {
        assert_eq!(
            inspect_card_action(
                3,
                &card,
                Some(CardJob {
                    id: "J9",
                    status,
                }),
            ),
            CardAction::Tail {
                job_id: "J9".into(),
            },
        );
    }
}

#[test]
fn inspect_card_action_previews_non_job_or_non_terminal_cards() {
    let mut card = card("cargo check");
    card.label = Some("build".into());

    assert_eq!(
        inspect_card_action(
            4,
            &card,
            Some(CardJob {
                id: "J4",
                status: JobStatus::Pending,
            }),
        ),
        CardAction::Preview(DisplayPreview::new(
            "card:4",
            "record build",
            "mode: JOB\ninput: cargo check\nstatus: success\nlabel: build\n\ndone",
        )),
    );

    assert!(matches!(
        inspect_card_action(2, &card, None),
        CardAction::Preview(_)
    ));
}
