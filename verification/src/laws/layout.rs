//! The layout: how much room each part of the screen gets.

use vstd::prelude::*;

use crate::text::Text;
use crate::tui::display::{hit_from, DisplayTabHit};
use crate::tui::geometry::{
    display_height, inner, input_height, inside, minus, panes_wanted, plus, regions, rows_fit,
    sidebar_width, Constraint, Rect,
};

verus! {

/// The sidebar takes a quarter of the width, from 20 to 40 cells, and leaves 30 to the rest.
pub proof fn lemma_sidebar_room(width: u16)
    ensures
        sidebar_width(width) + 30 <= width || sidebar_width(width) == 0,
        width >= 50 ==> 20 <= sidebar_width(width) <= 40,
        80 <= width <= 160 ==> sidebar_width(width) == width / 4,
        width > 160 ==> sidebar_width(width) == 40,
        50 <= width < 80 ==> sidebar_width(width) == 20,
{
}

/// The input line gets the rows that it asks for, as long as five stay for the rest.
pub proof fn lemma_input_room(height: u16, desired: u16)
    ensures
        desired + 5 <= height ==> input_height(height, desired) == desired,
        height > 5 && desired + 5 > height ==> input_height(height, desired) == height - 5,
        height <= 5 && desired >= 1 ==> input_height(height, desired) == 1,
        input_height(height, desired) <= desired,
{
}

/// On a screen that is high enough the header is the first row, the input line stands above
/// the last row and what is between them is for the body.
pub proof fn lemma_rows(width: u16, height: u16, desired: u16, sidebar: bool)
    requires
        desired >= 1,
        desired + 5 <= height,
    ensures
        ({
            let r = regions(width, height, desired, sidebar);
            &&& rows_fit(height, desired)
            &&& r.header == (Rect { x: 0, y: 0, width, height: 1 })
            &&& r.input == (Rect {
                x: 0,
                y: (height - desired - 1) as u16,
                width,
                height: desired,
            })
            &&& r.main.y == 1
            &&& r.main.height == height - desired - 2
            &&& r.results_inner == inner(r.results)
            &&& sidebar ==> (r.sidebar matches Some(s) && s.x == 0 && s.width == sidebar_width(
                width,
            ))
            &&& !sidebar ==> r.sidebar is None && r.main.x == 0 && r.main.width == width
        }),
{
}

/// The display takes three fifths of the height, to the nearest row, and six rows at least
/// stay for the results.
pub proof fn lemma_display_room(height: u16)
    ensures
        height >= 15 ==> {
            &&& 5 * display_height(height) <= 3 * height + 3
            &&& 5 * display_height(height) >= 3 * height - 3
            &&& display_height(height) <= height
        },
        6 <= height < 15 ==> display_height(height) == height - 6,
        height < 6 ==> display_height(height) == 0,
        panes_wanted() == seq![Constraint::Percentage(60), Constraint::Min(6)],
{
}

/// A border takes a cell on each side.
pub proof fn lemma_inner_area(area: Rect)
    requires
        area.width >= 2,
        area.height >= 2,
        area.x < u16::MAX,
        area.y < u16::MAX,
    ensures
        inner(area).x == area.x + 1,
        inner(area).y == area.y + 1,
        inner(area).width == area.width - 2,
        inner(area).height == area.height - 2,
{
}

/// A point lies in an area just when it is neither in front of it nor behind it.
pub proof fn lemma_points_in_areas(area: Rect, p: Rect)
    ensures
        inside(area, p) <==> !(p.x < area.x) && !(p.x >= area.x + area.width) && !(p.y < area.y)
            && !(p.y >= area.y + area.height),
{
}

/// Differences stop at nothing, and sums at the largest number.
pub proof fn lemma_cells_counted(a: u16, b: u16)
    ensures
        b <= a ==> minus(a, b) == a - b,
        b > a ==> minus(a, b) == 0,
        a + b <= u16::MAX ==> plus(a, b) == a + b,
        a + b > u16::MAX ==> plus(a, b) == u16::MAX,
{
}

// ── Tabs ──

/// Where the label at `i` starts.
pub open spec fn tab_start(labels: Seq<Text>, start: int, i: int) -> int
    decreases i,
{
    if i <= 0 {
        start
    } else {
        tab_start(labels, start, i - 1) + labels[i - 1].len()
    }
}

proof fn lemma_tab_start(labels: Seq<Text>, start: int, k: int, i: int)
    requires
        0 <= k <= i <= labels.len(),
    ensures
        tab_start(labels, start, k) <= tab_start(labels, start, i),
    decreases i - k,
{
    if k < i {
        lemma_tab_start(labels, start, k, i - 1);
    }
}

proof fn lemma_tab_hit_from(labels: Seq<Text>, start: int, k: int, i: int, x: int)
    requires
        0 <= k <= i < labels.len(),
        forall|j: int| 0 <= j < labels.len() ==> 3 <= (#[trigger] labels[j]).len() < 0x10000,
        tab_start(labels, start, i) <= x < tab_start(labels, start, i) + labels[i].len(),
    ensures
        hit_from(labels, k, tab_start(labels, start, k), x) == if x >= tab_start(labels, start, i)
            + labels[i].len() - 3 {
            Some(DisplayTabHit::Close(i as usize))
        } else {
            Some(DisplayTabHit::Activate(i as usize))
        },
    decreases i - k,
{
    assert(labels[k].len() % 0x10000 == labels[k].len());
    if k < i {
        lemma_tab_start(labels, start, k + 1, i);
        lemma_tab_hit_from(labels, start, k + 1, i, x);
        assert(tab_start(labels, start, k + 1) == tab_start(labels, start, k) + labels[k].len());
    }
}

/// A click on the label of a tab shows that tab, and one on its last three columns closes it.
pub proof fn lemma_tab_hit(labels: Seq<Text>, start: int, i: int, x: int)
    requires
        0 <= i < labels.len(),
        forall|j: int| 0 <= j < labels.len() ==> 3 <= (#[trigger] labels[j]).len() < 0x10000,
        tab_start(labels, start, i) <= x < tab_start(labels, start, i) + labels[i].len(),
    ensures
        x >= tab_start(labels, start, i) + labels[i].len() - 3 ==> hit_from(labels, 0, start, x)
            == Some(DisplayTabHit::Close(i as usize)),
        x < tab_start(labels, start, i) + labels[i].len() - 3 ==> hit_from(labels, 0, start, x)
            == Some(DisplayTabHit::Activate(i as usize)),
{
    lemma_tab_hit_from(labels, start, 0, i, x);
}

} // verus!
