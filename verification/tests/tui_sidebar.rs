use cue_shell::tui::sidebar::{Sidebar, SidebarItem, SidebarMsg};
use ratatui::backend::TestBackend;
use ratatui::layout::Rect;
use ratatui::widgets::{Block, Borders, List, ListState};
use ratatui::Terminal;

fn sidebar_with_items(count: usize) -> Sidebar {
    let mut sidebar = Sidebar::new();
    sidebar.update(SidebarMsg::SetItems(
        (0..count)
            .map(|index| SidebarItem {
                id: format!("J{}", index + 1),
                label: format!("item {index}"),
                status_icon: "•",
            })
            .collect(),
    ));
    sidebar
}

fn render(sidebar: &mut Sidebar) {
    let backend = TestBackend::new(24, 8);
    let mut terminal = Terminal::new(backend).expect("terminal");
    let labels: Vec<String> = sidebar.items.iter().map(|item| item.label.clone()).collect();
    let mut state =
        ListState::default().with_selected(sidebar.selection()).with_offset(sidebar.list_offset());
    terminal
        .draw(|frame| {
            let list = List::new(labels).block(Block::default().borders(Borders::ALL));
            frame.render_stateful_widget(list, Rect::new(0, 0, 24, 8), &mut state);
        })
        .expect("draw sidebar");
    sidebar.set_list_offset(state.offset());
}

#[test]
fn render_tracks_scroll_offset_for_selected_item() {
    let mut sidebar = sidebar_with_items(10);
    sidebar.selected = Some(7);

    render(&mut sidebar);

    assert_eq!(sidebar.visible_row_index(0), Some(2));
    assert_eq!(sidebar.visible_row_index(5), Some(7));
}

#[test]
fn selecting_visible_row_uses_current_scroll_offset() {
    let mut sidebar = sidebar_with_items(10);
    sidebar.selected = Some(7);

    render(&mut sidebar);

    assert_eq!(sidebar.select_visible_row(1), Some(3));
    assert_eq!(sidebar.selected, Some(3));
}

#[test]
fn rows_below_the_last_item_select_nothing() {
    let mut sidebar = sidebar_with_items(2);
    assert_eq!(sidebar.select_visible_row(5), None);
    assert_eq!(sidebar.visible_row_index(1), Some(1));
}
