//! The header: session state and actions.

use vstd::prelude::*;
use vstd::string::*;

use crate::mode::Mode;
use crate::text;
use crate::text::Text;
use crate::tui::geometry::Rect;
use crate::tui::message::{opt_action, ActionModel, MouseMode, UserAction};
use crate::tui::sidebar::OverviewCounts;

verus! {

/// Messages local to the header.
#[derive(Debug)]
pub enum StatusBarMsg {
    SetConnected(bool),
    SetMouseMode(MouseMode),
    SetMode(Mode),
    SetClearEnabled(bool),
    SetOverview(OverviewCounts),
}

#[derive(Debug, Clone, Copy, PartialEq, Eq, Structural)]
pub struct StatusBar {
    /// Whether the daemon is connected.
    pub connected: bool,
    pub mouse_mode: MouseMode,
    pub mode: Mode,
    /// Whether the clear action can be taken now.
    pub clear_enabled: bool,
    pub overview: OverviewCounts,
}

/// The labels of the actions with what they do, from left to right.
pub open spec fn labels() -> Seq<Text> {
    seq![
        "[clear]"@,
        "[sidebar ^B]"@,
        "[copy ^Y]"@,
        "[targets ^T]"@,
        "[jobs ^C]"@,
        "[mouse]"@,
        "[quit ^D]"@,
    ]
}

pub open spec fn label_actions() -> Seq<ActionModel> {
    seq![
        ActionModel::ClearDisplay,
        ActionModel::ToggleSidebar,
        ActionModel::CopyFocus,
        ActionModel::OpenTargetSettings,
        ActionModel::OpenJobPicker,
        ActionModel::ToggleMouseMode,
        ActionModel::Quit,
    ]
}

/// The width of labels from `i` on, with a space between two.
pub open spec fn labels_width(labels: Seq<Text>) -> nat
    decreases labels.len(),
{
    if labels.len() == 0 {
        0
    } else if labels.len() == 1 {
        labels[0].len()
    } else {
        labels[0].len() + 1 + labels_width(labels.drop_first())
    }
}

/// The label at a column, with the first label starting at `at`.
pub open spec fn label_at(labels: Seq<Text>, at: int, column: int) -> Option<int>
    decreases labels.len(),
{
    if labels.len() == 0 {
        None
    } else if at <= column < at + labels[0].len() {
        Some(0)
    } else {
        match label_at(labels.drop_first(), at + labels[0].len() + 1, column) {
            Some(i) => Some(i + 1),
            None => None,
        }
    }
}

/// The action at a column of the header; the labels stand at its right end.
pub open spec fn action_in(area: Rect, column: u16) -> Option<ActionModel> {
    let width = labels_width(labels());
    if area.width < width || column >= area.x + area.width {
        None
    } else {
        match label_at(labels(), area.x + area.width - width, column as int) {
            Some(i) => Some(label_actions()[i]),
            None => None,
        }
    }
}

fn action_labels() -> (r: Vec<String>)
    ensures
        text::texts(r@) == labels(),
{
    let mut r = text::texts4(
        "[clear]".to_owned(),
        "[sidebar ^B]".to_owned(),
        "[copy ^Y]".to_owned(),
        "[targets ^T]".to_owned(),
    );
    let mut rest = text::texts3("[jobs ^C]".to_owned(), "[mouse]".to_owned(), "[quit ^D]".to_owned());
    let ghost a = r@;
    let ghost b = rest@;
    r.append(&mut rest);
    assert(text::texts(r@) =~= text::texts(a) + text::texts(b));
    assert(text::texts(r@) =~= labels());
    r
}

fn action_number(i: usize) -> (r: UserAction)
    requires
        i < 7,
    ensures
        r@ == label_actions()[i as int],
{
    if i == 0 {
        UserAction::ClearDisplay
    } else if i == 1 {
        UserAction::ToggleSidebar
    } else if i == 2 {
        UserAction::CopyFocus
    } else if i == 3 {
        UserAction::OpenTargetSettings
    } else if i == 4 {
        UserAction::OpenJobPicker
    } else if i == 5 {
        UserAction::ToggleMouseMode
    } else {
        UserAction::Quit
    }
}

proof fn lemma_labels_width()
    ensures
        labels_width(labels()) == 71,
        labels()[0].len() == 7,
        labels()[1].len() == 12,
        labels()[2].len() == 9,
        labels()[3].len() == 12,
        labels()[4].len() == 9,
        labels()[5].len() == 7,
        labels()[6].len() == 9,
{
    reveal_strlit("[clear]");
    reveal_strlit("[sidebar ^B]");
    reveal_strlit("[copy ^Y]");
    reveal_strlit("[targets ^T]");
    reveal_strlit("[jobs ^C]");
    reveal_strlit("[mouse]");
    reveal_strlit("[quit ^D]");
    reveal_with_fuel(labels_width, 8);
}

impl StatusBar {
    pub fn new() -> (r: StatusBar)
        ensures
            r == (StatusBar {
                connected: false,
                mouse_mode: MouseMode::UiCapture,
                mode: Mode::Job,
                clear_enabled: true,
                overview: OverviewCounts { jobs: 0, jobs_running: 0, crons: 0 },
            }),
    {
        StatusBar {
            connected: false,
            mouse_mode: MouseMode::UiCapture,
            mode: Mode::Job,
            clear_enabled: true,
            overview: OverviewCounts { jobs: 0, jobs_running: 0, crons: 0 },
        }
    }

    /// The labels of the actions.
    pub fn action_labels(&self) -> (r: Vec<String>)
        ensures
            text::texts(r@) == labels(),
    {
        action_labels()
    }

    /// The columns that the actions take.
    pub fn action_text_width(&self) -> (r: u16)
        ensures
            r == labels_width(labels()),
    {
        proof {
            lemma_labels_width();
        }
        71
    }

    /// The action at a column of the header.
    pub fn action_at(&self, area: Rect, column: u16) -> (r: Option<UserAction>)
        ensures
            opt_action(r) == action_in(area, column),
    {
        proof {
            lemma_labels_width();
        }
        let width: u16 = self.action_text_width();
        if area.width < width {
            return None;
        }
        let end: u32 = area.x as u32 + area.width as u32;
        if column as u32 >= end {
            return None;
        }
        let shown = action_labels();
        let ghost all = labels();
        let mut at: u32 = end - width as u32;
        let ghost start = at as int;
        let mut i: usize = 0;
        assert(all.skip(0) =~= all);
        while i < shown.len()
            invariant
                i <= shown@.len(),
                shown@.len() == 7,
                text::texts(shown@) == all,
                all == labels(),
                start == end - width,
                end == area.x + area.width,
                area.width >= width,
                column < end,
                width == labels_width(labels()),
                at <= 131070 + 13 * i,
                match label_at(all.skip(i as int), at as int, column as int) {
                    Some(k) => label_at(all, start, column as int) == Some(k + i),
                    None => label_at(all, start, column as int) is None,
                },
            decreases shown@.len() - i,
        {
            proof {
                lemma_labels_width();
                assert(all.skip(i as int)[0] == shown@[i as int]@);
                assert(all.skip(i as int).drop_first() =~= all.skip(i + 1));
            }
            let len: u32 = shown[i].as_str().unicode_len() as u32;
            if column as u32 >= at && (column as u32) < at + len {
                return Some(action_number(i));
            }
            at = at + len + 1;
            i = i + 1;
        }
        None
    }

    pub fn update(&mut self, msg: StatusBarMsg)
        ensures
            *final(self) == match msg {
                StatusBarMsg::SetConnected(connected) => StatusBar { connected, ..*old(self) },
                StatusBarMsg::SetMouseMode(mouse_mode) => StatusBar { mouse_mode, ..*old(self) },
                StatusBarMsg::SetMode(mode) => StatusBar { mode, ..*old(self) },
                StatusBarMsg::SetClearEnabled(clear_enabled) => StatusBar {
                    clear_enabled,
                    ..*old(self)
                },
                StatusBarMsg::SetOverview(overview) => StatusBar { overview, ..*old(self) },
            },
    {
        match msg {
            StatusBarMsg::SetConnected(connected) => {
                self.connected = connected;
            },
            StatusBarMsg::SetMouseMode(mouse_mode) => {
                self.mouse_mode = mouse_mode;
            },
            StatusBarMsg::SetMode(mode) => {
                self.mode = mode;
            },
            StatusBarMsg::SetClearEnabled(clear_enabled) => {
                self.clear_enabled = clear_enabled;
            },
            StatusBarMsg::SetOverview(overview) => {
                self.overview = overview;
            },
        }
    }

    /// The number of jobs and crons as the header shows them.
    pub fn counts_text(&self) -> (r: String)
        ensures
            r@ == "J:"@ + text::decimal(self.overview.jobs as nat) + " "@ + running_text(
                self.overview.jobs_running,
            ) + "  C:"@ + text::decimal(self.overview.crons as nat),
    {
        let running = if self.overview.jobs_running > 0 {
            text::concat3("(", text::decimal_u64(self.overview.jobs_running as u64).as_str(), " running)")
        } else {
            "(-)".to_owned()
        };
        let mut r = text::concat4(
            "J:",
            text::decimal_u64(self.overview.jobs as u64).as_str(),
            " ",
            running.as_str(),
        );
        r.append("  C:");
        r.append(text::decimal_u64(self.overview.crons as u64).as_str());
        r
    }
}

pub open spec fn running_text(running: u32) -> Text {
    if running > 0 {
        "("@ + text::decimal(running as nat) + " running)"@
    } else {
        "(-)"@
    }
}

/// Two digits.
pub open spec fn two_digits(n: nat) -> Text {
    if n < 10 {
        "0"@ + text::decimal(n)
    } else {
        text::decimal(n)
    }
}

/// The time of day in hours and minutes, from seconds since the epoch.
pub fn clock_text(secs: u64) -> (r: String)
    ensures
        r@ == two_digits(((secs / 3600) % 24) as nat) + ":"@ + two_digits(
            ((secs / 60) % 60) as nat,
        ),
{
    let hours: u64 = (secs / 3600) % 24;
    let minutes: u64 = (secs / 60) % 60;
    let h = if hours < 10 {
        text::concat2("0", text::decimal_u64(hours).as_str())
    } else {
        text::decimal_u64(hours)
    };
    let m = if minutes < 10 {
        text::concat2("0", text::decimal_u64(minutes).as_str())
    } else {
        text::decimal_u64(minutes)
    };
    text::concat3(h.as_str(), ":", m.as_str())
}

} // verus!
