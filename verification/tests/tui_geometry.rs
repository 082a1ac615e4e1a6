use cue_shell::tui::geometry::{
    arrange, centered_rect, column_sizes, contains, inner_rect, layout_regions, margin_sizes,
    pane_sizes, row_sizes, Constraint, Rect,
};

#[test]
fn contains_uses_half_open_rect_bounds() {
    let area = Rect::new(2, 3, 4, 5);

    assert!(contains(area, Rect::new(2, 3, 1, 1)));
    assert!(contains(area, Rect::new(5, 7, 1, 1)));
    assert!(!contains(area, Rect::new(6, 7, 1, 1)));
    assert!(!contains(area, Rect::new(5, 8, 1, 1)));
}

#[test]
fn inner_rect_saturates_tiny_areas() {
    assert_eq!(inner_rect(Rect::new(5, 7, 1, 1)), Rect::new(6, 8, 0, 0));
}

#[test]
fn centered_rect_returns_expected_percentage_slice() {
    assert_eq!(
        centered_rect(Rect::new(0, 0, 100, 50), 70, 60),
        Rect::new(15, 10, 70, 30)
    );
}

#[test]
fn layout_regions_splits_sidebar_and_workspace() {
    let regions = layout_regions(120, 40, 3, true);

    assert_eq!(regions.header, Rect::new(0, 0, 120, 1));
    assert_eq!(regions.input.height, 3);
    assert_eq!(regions.sidebar, Some(Rect::new(0, 1, 30, 35)));
    assert_eq!(regions.main, Rect::new(30, 1, 90, 35));
    assert_eq!(regions.sidebar_list, Some(Rect::new(1, 2, 28, 33)));
}

#[test]
fn layout_regions_omits_sidebar_when_hidden() {
    let regions = layout_regions(80, 24, 2, false);

    assert_eq!(regions.main, Rect::new(0, 1, 80, 20));
    assert_eq!(regions.sidebar, None);
    assert_eq!(regions.sidebar_list, None);
}

#[test]
fn the_sizes_that_are_asked_for() {
    assert_eq!(
        row_sizes(40, 3),
        vec![
            Constraint::Length(1),
            Constraint::Min(3),
            Constraint::Length(3),
            Constraint::Length(1)
        ]
    );
    assert_eq!(row_sizes(8, 9)[2], Constraint::Length(3));
    assert_eq!(row_sizes(0, 9)[2], Constraint::Length(1));
    assert_eq!(column_sizes(120), vec![Constraint::Length(30), Constraint::Min(30)]);
    assert_eq!(column_sizes(40), vec![Constraint::Length(10), Constraint::Min(30)]);
    assert_eq!(column_sizes(400)[0], Constraint::Length(40));
    assert_eq!(pane_sizes(), vec![Constraint::Percentage(60), Constraint::Min(6)]);
    assert_eq!(
        margin_sizes(70),
        vec![Constraint::Percentage(15), Constraint::Percentage(70), Constraint::Percentage(15)]
    );
}

#[test]
fn the_parts_are_put_in_their_places() {
    let header = Rect::new(0, 0, 80, 1);
    let body = Rect::new(0, 1, 80, 20);
    let input = Rect::new(0, 21, 80, 2);
    let sidebar = Rect::new(0, 1, 20, 20);
    let main = Rect::new(20, 1, 60, 20);
    let display = Rect::new(20, 1, 60, 12);
    let results = Rect::new(20, 13, 60, 8);

    let shown = arrange(header, body, input, Some((sidebar, main)), display, results);
    assert_eq!(shown.main, main);
    assert_eq!(shown.sidebar, Some(sidebar));
    assert_eq!(shown.sidebar_list, Some(Rect::new(1, 2, 18, 18)));
    assert_eq!(shown.results_inner, Rect::new(21, 14, 58, 6));

    let hidden = arrange(header, body, input, None, display, results);
    assert_eq!(hidden.main, body);
    assert_eq!(hidden.sidebar, None);
    assert_eq!(hidden.sidebar_list, None);
}

#[test]
fn every_region_lies_on_the_screen() {
    for (width, height) in [(120, 40), (31, 4), (10, 10), (1, 1), (0, 0)] {
        let shown = layout_regions(width, height, 2, true);
        for area in [shown.header, shown.input, shown.main, shown.display, shown.results] {
            assert!(area.x + area.width <= width && area.y + area.height <= height);
        }
    }
}

/// Where the edge of a part stands that ends after so many hundredths of a cell.
fn cells(hundredths: u32) -> u16 {
    ((hundredths + 50) / 100) as u16
}

#[test]
fn the_middle_of_an_area_has_its_edges_at_the_nearest_cells() {
    for size in [0u16, 1, 2, 3, 7, 10, 13, 24, 33, 50, 80, 99, 120, 237, 1_000] {
        for pct in [0u16, 1, 9, 33, 50, 60, 70, 78, 82, 99, 100] {
            let margin = u32::from((100 - pct) / 2);
            let from = cells(margin * u32::from(size));
            let to = cells((margin + u32::from(pct)) * u32::from(size));
            let area = Rect::new(3, 5, size, 10);
            assert_eq!(centered_rect(area, pct, 100), Rect::new(3 + from, 5, to - from, 10));
            let area = Rect::new(3, 5, 10, size);
            assert_eq!(centered_rect(area, 100, pct), Rect::new(3, 5 + from, 10, to - from));
        }
    }
}

#[test]
fn every_region_stands_where_the_sizes_put_it() {
    for width in [0u16, 5, 29, 30, 31, 49, 50, 51, 79, 80, 81, 120, 160, 161, 300] {
        for height in [6u16, 7, 9, 14, 15, 18, 19, 20, 21, 24, 40, 57, 200] {
            for desired in [0u16, 1, 3, 12] {
                let input = desired.min(height - 5);
                let shown = layout_regions(width, height, desired, true);
                assert_eq!(shown.header, Rect::new(0, 0, width, 1));
                assert_eq!(shown.input, Rect::new(0, height - 1 - input, width, input));
                let body = height - 2 - input;
                let beside = (width / 4).clamp(20, 40).min(width.saturating_sub(30));
                assert_eq!(shown.sidebar, Some(Rect::new(0, 1, beside, body)));
                assert_eq!(shown.main, Rect::new(beside, 1, width - beside, body));
                let above =
                    if body >= 15 { cells(60 * u32::from(body)) } else { body.saturating_sub(6) };
                assert_eq!(shown.display, Rect::new(beside, 1, width - beside, above));
                assert_eq!(
                    shown.results,
                    Rect::new(beside, 1 + above, width - beside, body - above)
                );

                let hidden = layout_regions(width, height, desired, false);
                assert_eq!(hidden.main, Rect::new(0, 1, width, body));
                assert_eq!(hidden.display, Rect::new(0, 1, width, above));
            }
        }
    }
}

#[test]
fn on_a_low_screen_the_body_keeps_its_rows() {
    for height in 0u16..6 {
        for desired in [0u16, 1, 4] {
            let shown = layout_regions(90, height, desired, true);
            assert!(shown.main.height >= height.min(3));
            assert_eq!(shown.header.y, 0);
            assert_eq!(shown.header.y + shown.header.height, shown.main.y);
            assert_eq!(shown.main.y + shown.main.height, shown.input.y);
            assert!(shown.input.y + shown.input.height <= height);
            assert_eq!(shown.display.y + shown.display.height, shown.results.y);
            assert_eq!(
                shown.results.y + shown.results.height,
                shown.main.y + shown.main.height
            );
        }
    }
}
