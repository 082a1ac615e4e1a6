//! Regions of the screen.

use vstd::prelude::*;

verus! {

/// A rectangle of terminal cells.
#[derive(Debug, Clone, Copy, PartialEq, Eq, Structural)]
pub struct Rect {
    pub x: u16,
    pub y: u16,
    pub width: u16,
    pub height: u16,
}

impl Rect {
    pub fn new(x: u16, y: u16, width: u16, height: u16) -> (r: Rect)
        ensures
            r == (Rect { x, y, width, height }),
    {
        Rect { x, y, width, height }
    }
}

/// How large a part of a layout is to be.
#[derive(Debug, Clone, Copy, PartialEq, Eq, Structural)]
pub enum Constraint {
    Length(u16),
    Min(u16),
    Percentage(u16),
}

// ── Points and areas ──

/// Whether the cell at the corner of `point` lies in `area`.
pub open spec fn inside(area: Rect, point: Rect) -> bool {
    &&& area.x <= point.x < area.x + area.width
    &&& area.y <= point.y < area.y + area.height
}

pub fn contains(area: Rect, point: Rect) -> (r: bool)
    ensures
        r == inside(area, point),
{
    point.x >= area.x && (point.x as u32) < area.x as u32 + area.width as u32 && point.y >= area.y
        && (point.y as u32) < area.y as u32 + area.height as u32
}

pub open spec fn minus(a: u16, b: u16) -> u16 {
    if a >= b {
        (a - b) as u16
    } else {
        0
    }
}

pub open spec fn plus(a: u16, b: u16) -> u16 {
    if a + b <= u16::MAX {
        (a + b) as u16
    } else {
        u16::MAX
    }
}

/// `a - b`, but not below zero.
pub fn saturating_minus(a: u16, b: u16) -> (r: u16)
    ensures
        r == minus(a, b),
{
    if a >= b {
        a - b
    } else {
        0
    }
}

pub fn saturating_plus(a: u16, b: u16) -> (r: u16)
    ensures
        r == plus(a, b),
{
    if b <= u16::MAX - a {
        a + b
    } else {
        u16::MAX
    }
}

/// An area without its border.
pub open spec fn inner(area: Rect) -> Rect {
    Rect {
        x: plus(area.x, 1),
        y: plus(area.y, 1),
        width: minus(area.width, 2),
        height: minus(area.height, 2),
    }
}

pub fn inner_rect(area: Rect) -> (r: Rect)
    ensures
        r == inner(area),
{
    Rect {
        x: saturating_plus(area.x, 1),
        y: saturating_plus(area.y, 1),
        width: saturating_minus(area.width, 2),
        height: saturating_minus(area.height, 2),
    }
}

// ── Layouts ──

/// An area lies in another.
pub open spec fn lies_in(area: Rect, part: Rect) -> bool {
    &&& area.x <= part.x && part.x + part.width <= plus(area.x, area.width)
    &&& area.y <= part.y && part.y + part.height <= plus(area.y, area.height)
}

/// Where an area begins, downwards or to the right.
pub open spec fn from(area: Rect, down: bool) -> int {
    if down {
        area.y as int
    } else {
        area.x as int
    }
}

/// How long it is in that direction.
pub open spec fn length(area: Rect, down: bool) -> int {
    if down {
        area.height as int
    } else {
        area.width as int
    }
}

/// Where it ends; no cell lies beyond the last coordinate.
pub open spec fn to(area: Rect, down: bool) -> int {
    if down {
        plus(area.y, area.height) as int
    } else {
        plus(area.x, area.width) as int
    }
}

/// What a part asks for of `span` cells, in hundredths of a cell.
pub open spec fn share(wanted: Constraint, span: int) -> int {
    match wanted {
        Constraint::Length(n) => 100 * n,
        Constraint::Min(n) => 100 * n,
        Constraint::Percentage(p) => p * span,
    }
}

/// What the parts ask for together.
pub open spec fn total(wanted: Seq<Constraint>, span: int) -> int
    decreases wanted.len(),
{
    if wanted.len() == 0 {
        0
    } else {
        total(wanted.drop_last(), span) + share(wanted.last(), span)
    }
}

pub open spec fn fits(wanted: Seq<Constraint>, span: int) -> bool {
    total(wanted, span) <= 100 * span
}

/// Where the first `k` parts end if all fit: each has what it asks for, and what
/// is left over goes to the part with a least size.
pub open spec fn reach(wanted: Seq<Constraint>, k: int, span: int) -> int
    decreases k,
{
    if k <= 0 {
        0
    } else {
        reach(wanted, k - 1, span) + share(wanted[k - 1], span) + if wanted[k - 1] is Min {
            100 * span - total(wanted, span)
        } else {
            0
        }
    }
}

/// Hundredths of a cell, to the nearest cell.
pub open spec fn cells(hundredths: int) -> int {
    (hundredths + 50) / 100
}

/// At most one part has a least size; percentages stand alone and do not exceed
/// the whole, or there is but one.
pub open spec fn plain(wanted: Seq<Constraint>) -> bool {
    &&& wanted.len() <= 4
    &&& forall|i: int| 0 <= i < wanted.len() ==> (#[trigger] wanted[i] matches Constraint::Min(n) ==> n
        <= i16::MAX)
    &&& forall|i: int, j: int|
        0 <= i < j < wanted.len() ==> !(#[trigger] wanted[i] is Min && #[trigger] wanted[j] is Min)
    &&& {
        ||| forall|i: int| 0 <= i < wanted.len() ==> #[trigger] wanted[i] is Percentage
            && total(wanted, 1) <= 100
        ||| forall|i: int, j: int|
            0 <= i < j < wanted.len() ==> !(#[trigger] wanted[i] is Percentage
                && #[trigger] wanted[j] is Percentage)
    }
}

/// An area cut into parts that follow each other.
///
/// Where the parts fit, each edge stands where the sizes put it, to the nearest
/// cell. Where they do not, a least size is kept to as far as there is room for it.
pub open spec fn cut(area: Rect, wanted: Seq<Constraint>, down: bool, parts: Seq<Rect>) -> bool {
    let span = to(area, down) - from(area, down);
    &&& parts.len() == wanted.len()
    &&& forall|i: int|
        0 <= i < parts.len() ==> {
            &&& from(#[trigger] parts[i], !down) == from(area, !down)
            &&& length(parts[i], !down) == length(area, !down)
            &&& from(area, down) <= from(parts[i], down)
            &&& from(parts[i], down) + length(parts[i], down) <= to(area, down)
        }
    &&& parts.len() > 0 ==> from(parts[0], down) == from(area, down)
    &&& forall|i: int, j: int|
        0 <= i && j == i + 1 && j < parts.len() ==> from(#[trigger] parts[i], down) + length(
            parts[i],
            down,
        ) == from(#[trigger] parts[j], down)
    &&& forall|i: int|
        0 <= i < parts.len() && #[trigger] wanted[i] is Min ==> from(parts.last(), down) + length(
            parts.last(),
            down,
        ) == to(area, down)
    &&& forall|i: int|
        0 <= i < parts.len() && fits(wanted, span) ==> {
            &&& from(#[trigger] parts[i], down) == from(area, down) + cells(reach(wanted, i, span))
            &&& from(parts[i], down) + length(parts[i], down) == from(area, down) + cells(
                reach(wanted, i + 1, span),
            )
        }
    &&& forall|i: int|
        0 <= i < parts.len() && !fits(wanted, span) ==> (#[trigger] wanted[i] matches Constraint::Min(
            n,
        ) ==> length(parts[i], down) == if n <= span {
            n as int
        } else {
            span
        })
}

/// `ratatui::layout::Layout::vertical` and its `split`: one part for each
/// constraint, in their order and end to end from the top of the area, each as
/// wide as it.
///
/// The solver behind it ranks a least size before a length, a length before a
/// percentage and all of them before the wish to grow, of which that of a least
/// size is the strongest; gaps between parts cost more than any of these. So where
/// the parts fit there is one solution, of which each edge is rounded. Where
/// they do not fit, what is said is that they stand end to end, that nothing is left
/// over beside a least size, and that this size is kept to. How the rest is
/// divided among lengths is left unsaid: several divisions can be equally good, and
/// which of them comes out depends on hash seeds of the process. Longer lists, and
/// lists that mix sizes in other ways, are left out: there an edge can fall on a half
/// of what is rounded.
#[verifier::external_body]
pub(crate) fn split_vertical(constraints: &Vec<Constraint>, area: Rect) -> (r: Vec<Rect>)
    requires
        plain(constraints@),
    ensures
        cut(area, constraints@, true, r@),
{
    let Rect { x, y, width, height } = area;
    let parts = ratatui::layout::Layout::vertical(
        constraints.iter().map(|c| match *c {
            Constraint::Length(n) => ratatui::layout::Constraint::Length(n),
            Constraint::Min(n) => ratatui::layout::Constraint::Min(n),
            Constraint::Percentage(n) => ratatui::layout::Constraint::Percentage(n),
        }),
    ).split(ratatui::layout::Rect { x, y, width, height });
    parts.iter().map(|p| Rect { x: p.x, y: p.y, width: p.width, height: p.height }).collect()
}

/// `ratatui::layout::Layout::horizontal` and its `split`: as `split_vertical`, but
/// from the left to the right.
#[verifier::external_body]
pub(crate) fn split_horizontal(constraints: &Vec<Constraint>, area: Rect) -> (r: Vec<Rect>)
    requires
        plain(constraints@),
    ensures
        cut(area, constraints@, false, r@),
{
    let Rect { x, y, width, height } = area;
    let parts = ratatui::layout::Layout::horizontal(
        constraints.iter().map(|c| match *c {
            Constraint::Length(n) => ratatui::layout::Constraint::Length(n),
            Constraint::Min(n) => ratatui::layout::Constraint::Min(n),
            Constraint::Percentage(n) => ratatui::layout::Constraint::Percentage(n),
        }),
    ).split(ratatui::layout::Rect { x, y, width, height });
    parts.iter().map(|p| Rect { x: p.x, y: p.y, width: p.width, height: p.height }).collect()
}

// ── The middle of an area ──

/// Margin, part and margin, in percent.
pub open spec fn margins(pct: u16) -> Seq<Constraint> {
    let m = ((100 - pct) / 2) as u16;
    seq![Constraint::Percentage(m), Constraint::Percentage(pct), Constraint::Percentage(m)]
}

/// How the middle of an area is cut out of it.
pub fn margin_sizes(pct: u16) -> (r: Vec<Constraint>)
    requires
        pct <= 100,
    ensures
        r@ == margins(pct),
{
    let m: u16 = (100 - pct) / 2;
    let r = vec![Constraint::Percentage(m), Constraint::Percentage(pct), Constraint::Percentage(m)];
    assert(r@ =~= margins(pct));
    r
}

/// Where the middle part of `span` cells begins.
pub open spec fn middle_from(span: int, pct: u16) -> int {
    cells((100 - pct) / 2 * span)
}

/// Where it ends.
pub open spec fn middle_to(span: int, pct: u16) -> int {
    cells(((100 - pct) / 2 + pct) * span)
}

/// The part in the middle of an area that takes up so many percent of its width
/// and its height, each edge at the nearest cell.
pub open spec fn centered(area: Rect, width_pct: u16, height_pct: u16) -> Rect {
    let width = to(area, false) - from(area, false);
    let height = to(area, true) - from(area, true);
    Rect {
        x: (area.x + middle_from(width, width_pct)) as u16,
        y: (area.y + middle_from(height, height_pct)) as u16,
        width: (middle_to(width, width_pct) - middle_from(width, width_pct)) as u16,
        height: (middle_to(height, height_pct) - middle_from(height, height_pct)) as u16,
    }
}

proof fn lemma_margins(pct: u16, span: int)
    requires
        pct <= 100,
        0 <= span,
    ensures
        plain(margins(pct)),
        fits(margins(pct), span),
        cells(reach(margins(pct), 1, span)) == middle_from(span, pct),
        cells(reach(margins(pct), 2, span)) == middle_to(span, pct),
        0 <= middle_from(span, pct) <= middle_to(span, pct) <= span,
{
    let m = (100 - pct) / 2;
    let w = margins(pct);
    reveal_with_fuel(total, 4);
    reveal_with_fuel(reach, 3);
    assert(w.drop_last() =~= seq![w[0], w[1]]);
    assert(w.drop_last().drop_last() =~= seq![w[0]]);
    assert(w.drop_last().drop_last().drop_last() =~= seq![]);
    assert(total(w, span) == m * span + pct * span + m * span);
    assert(total(w, 1) == m * 1 + pct * 1 + m * 1);
    assert(m * span + pct * span == (m + pct) * span) by (nonlinear_arith);
    assert((m + pct) * span + m * span == (m + pct + m) * span) by (nonlinear_arith);
    assert(0 <= m * span) by (nonlinear_arith)
        requires
            0 <= m,
            0 <= span,
    ;
    assert(m * span <= (m + pct) * span) by (nonlinear_arith)
        requires
            0 <= pct,
            0 <= span,
    ;
    assert((m + pct) * span <= 100 * span) by (nonlinear_arith)
        requires
            m + pct <= 100,
            0 <= span,
    ;
    assert((m + pct + m) * span <= 100 * span) by (nonlinear_arith)
        requires
            m + pct + m <= 100,
            0 <= span,
    ;
}

/// The part of `area` in its middle: that of the columns of its middle row.
pub fn centered_rect(area: Rect, width_pct: u16, height_pct: u16) -> (r: Rect)
    requires
        width_pct <= 100,
        height_pct <= 100,
    ensures
        r == centered(area, width_pct, height_pct),
        lies_in(area, r),
{
    proof {
        lemma_margins(height_pct, to(area, true) - from(area, true));
        lemma_margins(width_pct, to(area, false) - from(area, false));
    }
    let rows = split_vertical(&margin_sizes(height_pct), area);
    let row = rows[1];
    assert(to(row, false) == to(area, false));
    let columns = split_horizontal(&margin_sizes(width_pct), row);
    columns[1]
}

// ── The regions of the screen ──

/// The regions of the screen.
#[derive(Debug, Clone, Copy, PartialEq, Eq, Structural)]
pub struct UiRegions {
    pub header: Rect,
    pub input: Rect,
    pub main: Rect,
    pub display: Rect,
    pub results: Rect,
    pub results_inner: Rect,
    pub sidebar: Option<Rect>,
    pub sidebar_list: Option<Rect>,
}

/// The input line gets the height that it wants as long as the rest fits.
pub open spec fn input_height(terminal_height: u16, desired: u16) -> u16 {
    let room = minus(terminal_height, 5);
    let room = if room >= 1 {
        room
    } else {
        1
    };
    if desired <= room {
        desired
    } else {
        room
    }
}

/// A quarter of the width, from 20 to 40 cells, but 30 stay for the rest.
pub open spec fn sidebar_width(terminal_width: u16) -> u16 {
    let quarter = (terminal_width / 4) as u16;
    let wanted: u16 = if quarter < 20 {
        20
    } else if quarter > 40 {
        40
    } else {
        quarter
    };
    if wanted <= minus(terminal_width, 30) {
        wanted
    } else {
        minus(terminal_width, 30)
    }
}

pub open spec fn screen(width: u16, height: u16) -> Rect {
    Rect { x: 0, y: 0, width, height }
}

/// The heights of header, body, input line and footer.
pub open spec fn rows_wanted(height: u16, desired: u16) -> Seq<Constraint> {
    seq![
        Constraint::Length(1),
        Constraint::Min(3),
        Constraint::Length(input_height(height, desired)),
        Constraint::Length(1),
    ]
}

/// The widths of sidebar and main area.
pub open spec fn columns_wanted(width: u16) -> Seq<Constraint> {
    seq![Constraint::Length(sidebar_width(width)), Constraint::Min(30)]
}

/// The heights of display and results.
pub open spec fn panes_wanted() -> Seq<Constraint> {
    seq![Constraint::Percentage(60), Constraint::Min(6)]
}

pub fn row_sizes(terminal_height: u16, input_desired_height: u16) -> (r: Vec<Constraint>)
    ensures
        r@ == rows_wanted(terminal_height, input_desired_height),
{
    let mut room: u16 = saturating_minus(terminal_height, 5);
    if room < 1 {
        room = 1;
    }
    let height: u16 = if input_desired_height <= room {
        input_desired_height
    } else {
        room
    };
    let r = vec![
        Constraint::Length(1),
        Constraint::Min(3),
        Constraint::Length(height),
        Constraint::Length(1),
    ];
    assert(r@ =~= rows_wanted(terminal_height, input_desired_height));
    r
}

pub fn column_sizes(terminal_width: u16) -> (r: Vec<Constraint>)
    ensures
        r@ == columns_wanted(terminal_width),
{
    let quarter: u16 = terminal_width / 4;
    let wanted: u16 = if quarter < 20 {
        20
    } else if quarter > 40 {
        40
    } else {
        quarter
    };
    let limit: u16 = saturating_minus(terminal_width, 30);
    let width: u16 = if wanted <= limit {
        wanted
    } else {
        limit
    };
    let r = vec![Constraint::Length(width), Constraint::Min(30)];
    assert(r@ =~= columns_wanted(terminal_width));
    r
}

pub fn pane_sizes() -> (r: Vec<Constraint>)
    ensures
        r@ == panes_wanted(),
{
    let r = vec![Constraint::Percentage(60), Constraint::Min(6)];
    assert(r@ =~= panes_wanted());
    r
}

/// The area beside the sidebar, or the whole body.
pub open spec fn main_of(body: Rect, columns: Option<(Rect, Rect)>) -> Rect {
    match columns {
        Some((_, main)) => main,
        None => body,
    }
}

/// Where everything stands, given header, body and input line, the sidebar and
/// the main area beside it if the sidebar is shown, and the two panes.
pub open spec fn arranged(
    header: Rect,
    body: Rect,
    input: Rect,
    columns: Option<(Rect, Rect)>,
    display: Rect,
    results: Rect,
) -> UiRegions {
    UiRegions {
        header,
        input,
        main: main_of(body, columns),
        display,
        results,
        results_inner: inner(results),
        sidebar: match columns {
            Some((sidebar, _)) => Some(sidebar),
            None => None,
        },
        sidebar_list: match columns {
            Some((sidebar, _)) => Some(inner(sidebar)),
            None => None,
        },
    }
}

/// Puts the parts of the screen together.
pub fn arrange(
    header: Rect,
    body: Rect,
    input: Rect,
    columns: Option<(Rect, Rect)>,
    display: Rect,
    results: Rect,
) -> (r: UiRegions)
    ensures
        r == arranged(header, body, input, columns, display, results),
{
    let (main, sidebar) = match columns {
        Some((sidebar, main)) => (main, Some(sidebar)),
        None => (body, None),
    };
    UiRegions {
        header,
        input,
        main,
        display,
        results,
        results_inner: inner_rect(results),
        sidebar,
        sidebar_list: match sidebar {
            Some(area) => Some(inner_rect(area)),
            None => None,
        },
    }
}

/// How high the display is in a main area of this height: three fifths of it, but
/// six rows stay for the results.
pub open spec fn display_height(height: u16) -> u16 {
    if height >= 15 {
        cells(60 * height) as u16
    } else {
        minus(height, 6)
    }
}

/// Sidebar and main area side by side in the body.
pub open spec fn beside(body: Rect) -> (Rect, Rect) {
    let w = sidebar_width(body.width);
    (
        Rect { width: w, ..body },
        Rect { x: (body.x + w) as u16, width: (body.width - w) as u16, ..body },
    )
}

/// Header, body and input line with everything that stands in the body: the
/// sidebar at its left, and in the rest the display above the results.
pub open spec fn furnished(
    header: Rect,
    body: Rect,
    input: Rect,
    sidebar_visible: bool,
) -> UiRegions {
    let columns = if sidebar_visible {
        Some(beside(body))
    } else {
        None
    };
    let main = main_of(body, columns);
    let h = display_height(main.height);
    arranged(
        header,
        body,
        input,
        columns,
        Rect { height: h, ..main },
        Rect { y: (main.y + h) as u16, height: (main.height - h) as u16, ..main },
    )
}

/// Whether header, body, input line and footer fit on a screen of this height.
pub open spec fn rows_fit(height: u16, desired: u16) -> bool {
    height >= input_height(height, desired) + 5
}

/// Where everything stands on a screen on which the rows fit.
pub open spec fn regions(
    width: u16,
    height: u16,
    desired: u16,
    sidebar_visible: bool,
) -> UiRegions {
    let input = input_height(height, desired);
    furnished(
        Rect { x: 0, y: 0, width, height: 1 },
        Rect { x: 0, y: 1, width, height: (height - input - 2) as u16 },
        Rect { x: 0, y: (height - input - 1) as u16, width, height: input },
        sidebar_visible,
    )
}

/// Where everything can stand on a screen of this size. On one too low for the
/// rows, how they are divided is open, but for the body, which keeps three rows.
pub open spec fn laid_out(
    width: u16,
    height: u16,
    desired: u16,
    sidebar_visible: bool,
    r: UiRegions,
) -> bool {
    if rows_fit(height, desired) {
        r == regions(width, height, desired, sidebar_visible)
    } else {
        exists|rows: Seq<Rect>|
            {
                &&& #[trigger] cut(screen(width, height), rows_wanted(height, desired), true, rows)
                &&& r == furnished(rows[0], rows[1], rows[2], sidebar_visible)
            }
    }
}

/// The lists of sizes that are asked for can be laid out.
proof fn lemma_sizes(height: u16, desired: u16, width: u16, span: int)
    requires
        0 <= span,
    ensures
        plain(rows_wanted(height, desired)),
        plain(columns_wanted(width)),
        plain(panes_wanted()),
        total(rows_wanted(height, desired), span) == 100 * (input_height(height, desired) + 5),
        total(columns_wanted(width), span) == 100 * (sidebar_width(width) + 30),
        total(panes_wanted(), span) == 60 * span + 600,
{
    reveal_with_fuel(total, 5);
    let r = rows_wanted(height, desired);
    assert(r.drop_last() =~= seq![r[0], r[1], r[2]]);
    assert(r.drop_last().drop_last() =~= seq![r[0], r[1]]);
    assert(r.drop_last().drop_last().drop_last() =~= seq![r[0]]);
    assert(r.drop_last().drop_last().drop_last().drop_last() =~= seq![]);
    let c = columns_wanted(width);
    assert(c.drop_last() =~= seq![c[0]]);
    assert(c.drop_last().drop_last() =~= seq![]);
    let p = panes_wanted();
    assert(p.drop_last() =~= seq![p[0]]);
    assert(p.drop_last().drop_last() =~= seq![]);
}

/// Rows that fit stand one below the other.
proof fn lemma_rows(width: u16, height: u16, desired: u16, rows: Seq<Rect>)
    requires
        cut(screen(width, height), rows_wanted(height, desired), true, rows),
        rows_fit(height, desired),
    ensures
        ({
            let input = input_height(height, desired);
            &&& rows[0] == Rect { x: 0, y: 0, width, height: 1 }
            &&& rows[1] == Rect { x: 0, y: 1, width, height: (height - input - 2) as u16 }
            &&& rows[2] == Rect { x: 0, y: (height - input - 1) as u16, width, height: input }
        }),
{
    let w = rows_wanted(height, desired);
    lemma_sizes(height, desired, width, height as int);
    reveal_with_fuel(reach, 5);
    assert(reach(w, 1, height as int) == 100);
    assert(reach(w, 2, height as int) == 100 * (height - input_height(height, desired) - 1));
    assert(reach(w, 3, height as int) == 100 * (height - 1));
    assert(from(rows[0], false) == 0 && length(rows[0], false) == width);
    assert(from(rows[1], false) == 0 && length(rows[1], false) == width);
    assert(from(rows[2], false) == 0 && length(rows[2], false) == width);
    assert(from(rows[1], true) == from(rows[0], true) + length(rows[0], true));
    assert(from(rows[2], true) == from(rows[1], true) + length(rows[1], true));
}

/// Sidebar and main area always stand side by side.
proof fn lemma_columns(body: Rect, parts: Seq<Rect>)
    requires
        body.x + body.width <= u16::MAX,
        cut(body, columns_wanted(body.width), false, parts),
    ensures
        beside(body) == (parts[0], parts[1]),
{
    let w = columns_wanted(body.width);
    lemma_sizes(0, 0, body.width, body.width as int);
    reveal_with_fuel(reach, 3);
    assert(w[0] == Constraint::Length(sidebar_width(body.width)));
    assert(w[1] == Constraint::Min(30));
    assert(from(parts[0], true) == body.y && length(parts[0], true) == body.height);
    assert(from(parts[1], true) == body.y && length(parts[1], true) == body.height);
    assert(from(parts[0], false) + length(parts[0], false) == from(parts[1], false));
    assert(reach(w, 1, body.width as int) == 100 * sidebar_width(body.width));
}

/// Display and results always fill the main area.
proof fn lemma_panes(main: Rect, parts: Seq<Rect>)
    requires
        main.y + main.height <= u16::MAX,
        cut(main, panes_wanted(), true, parts),
    ensures
        parts[0] == (Rect { height: display_height(main.height), ..main }),
        parts[1] == (Rect {
            y: (main.y + display_height(main.height)) as u16,
            height: (main.height - display_height(main.height)) as u16,
            ..main
        }),
{
    let w = panes_wanted();
    lemma_sizes(0, 0, 0, main.height as int);
    reveal_with_fuel(reach, 3);
    assert(w[0] == Constraint::Percentage(60));
    assert(w[1] == Constraint::Min(6));
    assert(from(parts[0], false) == main.x && length(parts[0], false) == main.width);
    assert(from(parts[1], false) == main.x && length(parts[1], false) == main.width);
    assert(from(parts[0], true) + length(parts[0], true) == from(parts[1], true));
    assert(reach(w, 1, main.height as int) == 60 * main.height);
}

pub fn layout_regions(
    terminal_width: u16,
    terminal_height: u16,
    input_desired_height: u16,
    sidebar_visible: bool,
) -> (r: UiRegions)
    ensures
        laid_out(terminal_width, terminal_height, input_desired_height, sidebar_visible, r),
{
    proof {
        lemma_sizes(terminal_height, input_desired_height, terminal_width, 0);
    }
    let whole = Rect::new(0, 0, terminal_width, terminal_height);
    let rows = split_vertical(&row_sizes(terminal_height, input_desired_height), whole);
    let body = rows[1];
    assert(from(body, false) == 0 && length(body, false) == terminal_width);
    assert(body.y + body.height <= terminal_height);
    let columns = if sidebar_visible {
        let parts = split_horizontal(&column_sizes(terminal_width), body);
        proof {
            lemma_columns(body, parts@);
        }
        Some((parts[0], parts[1]))
    } else {
        None
    };
    let main = match columns {
        Some((_, main)) => main,
        None => body,
    };
    let panes = split_vertical(&pane_sizes(), main);
    proof {
        lemma_panes(main, panes@);
        if rows_fit(terminal_height, input_desired_height) {
            lemma_rows(terminal_width, terminal_height, input_desired_height, rows@);
        }
    }
    let r = arrange(rows[0], body, rows[2], columns, panes[0], panes[1]);
    assert(r == furnished(rows@[0], rows@[1], rows@[2], sidebar_visible));
    assert(cut(
        screen(terminal_width, terminal_height),
        rows_wanted(terminal_height, input_desired_height),
        true,
        rows@,
    ));
    r
}

// ── Laws ──

/// Every region lies on the screen, and the sidebar has a region just when it
/// is shown.
pub proof fn lemma_regions_on_screen(
    width: u16,
    height: u16,
    desired: u16,
    sidebar_visible: bool,
    r: UiRegions,
)
    requires
        laid_out(width, height, desired, sidebar_visible, r),
    ensures
        lies_in(screen(width, height), r.header),
        lies_in(screen(width, height), r.input),
        lies_in(screen(width, height), r.main),
        lies_in(r.main, r.display),
        lies_in(r.main, r.results),
        r.sidebar is Some == sidebar_visible,
        r.sidebar matches Some(s) ==> lies_in(screen(width, height), s) && r.sidebar_list == Some(
            inner(s),
        ),
{
    if !rows_fit(height, desired) {
        let rows = choose|rows: Seq<Rect>|
            {
                &&& #[trigger] cut(screen(width, height), rows_wanted(height, desired), true, rows)
                &&& r == furnished(rows[0], rows[1], rows[2], sidebar_visible)
            };
        assert(from(rows[0], false) == 0 && length(rows[0], false) == width);
        assert(from(rows[1], false) == 0 && length(rows[1], false) == width);
        assert(from(rows[2], false) == 0 && length(rows[2], false) == width);
        assert(rows[1].y + rows[1].height <= height);
    }
}

/// The regions of the panels do not overlap: the header ends where the main area
/// begins, which ends where the input line begins, the sidebar ends where the
/// main area begins, and the display where the results begin.
pub proof fn lemma_regions_side_by_side(
    width: u16,
    height: u16,
    desired: u16,
    sidebar_visible: bool,
    r: UiRegions,
)
    requires
        laid_out(width, height, desired, sidebar_visible, r),
    ensures
        r.header.y == 0,
        r.header.y + r.header.height == r.main.y,
        r.main.y + r.main.height == r.input.y,
        r.main.x + r.main.width == width,
        r.sidebar matches Some(s) ==> s.x == 0 && s.x + s.width == r.main.x && s.y == r.main.y
            && s.height == r.main.height,
        r.sidebar is None ==> r.main.x == 0,
        r.display.y == r.main.y,
        r.display.y + r.display.height == r.results.y,
        r.results.y + r.results.height == r.main.y + r.main.height,
{
    if !rows_fit(height, desired) {
        let rows = choose|rows: Seq<Rect>|
            {
                &&& #[trigger] cut(screen(width, height), rows_wanted(height, desired), true, rows)
                &&& r == furnished(rows[0], rows[1], rows[2], sidebar_visible)
            };
        assert(from(rows[0], false) == 0 && length(rows[0], false) == width);
        assert(from(rows[1], false) == 0 && length(rows[1], false) == width);
        assert(from(rows[1], true) == from(rows[0], true) + length(rows[0], true));
        assert(from(rows[2], true) == from(rows[1], true) + length(rows[1], true));
        assert(rows[1].y + rows[1].height <= height);
    }
}

} // verus!
