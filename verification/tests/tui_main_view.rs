use cue_shell::mode::Mode;
use cue_shell::tui::geometry::Rect;
use cue_shell::tui::main_view::{chain_step_label, Card, MainView, MainViewMsg};

#[test]
fn card_at_point_hits_latest_card() {
    let mut view = MainView::new();
    view.push_card("cargo test".into(), Mode::Job);
    let second = view.push_card("cargo clippy".into(), Mode::Job);
    view.set_card_output(second, "done".into());

    let hit = view.card_at_point(Rect::new(0, 0, 40, 8), Rect::new(2, 6, 1, 1));

    assert_eq!(hit, Some(second));
}

#[test]
fn chain_step_label_format() {
    assert_eq!(chain_step_label("CH1", 0, 3), "chain:CH1/1/3");
    assert_eq!(chain_step_label("CH2", 2, 3), "chain:CH2/3/3");
    assert_eq!(chain_step_label("CH10", 0, 1), "chain:CH10/1/1");
}

#[test]
fn card_chain_label_field() {
    let mut card = Card::new("sleep 1 -> echo done".into(), Mode::Job);
    assert!(card.chain_label.is_none());
    card.chain_label = Some(chain_step_label("CH1", 0, 2));
    assert_eq!(card.chain_label.as_deref(), Some("chain:CH1/1/2"));
}

#[test]
fn set_card_chain_label_via_view_msg() {
    let mut view = MainView::new();
    let idx = view.push_card("cmd1 -> cmd2".into(), Mode::Job);
    view.update(MainViewMsg::SetCardChainLabel {
        index: idx,
        label: "chain:CH1/1/2".into(),
    });
    assert_eq!(
        view.cards[idx].chain_label.as_deref(),
        Some("chain:CH1/1/2")
    );
}
