//! The sidebar: a list of jobs or crons.

use vstd::prelude::*;
use vstd::string::*;

use crate::mode::Mode;
use crate::text;
use crate::text::Text;
use crate::tui::keys::{only_control, KeyCode, KeyEvent, KeyEventKind};
use crate::tui::message::{opt_action, ActionModel, UserAction};

verus! {

/// An entry of the sidebar.
#[derive(Debug)]
pub struct SidebarItem {
    /// Short identifier, e.g. "J1", "C2".
    pub id: String,
    /// Command text.
    pub label: String,
    pub status_icon: &'static str,
}

/// An entry over character sequences.
pub struct SidebarItemModel {
    pub id: Text,
    pub label: Text,
    pub status_icon: Text,
}

impl View for SidebarItem {
    type V = SidebarItemModel;

    open spec fn view(&self) -> SidebarItemModel {
        SidebarItemModel { id: self.id@, label: self.label@, status_icon: self.status_icon@ }
    }
}

pub open spec fn item_models(v: Seq<SidebarItem>) -> Seq<SidebarItemModel> {
    v.map_values(|i: SidebarItem| i@)
}

/// How many there are of each.
#[derive(Debug, Clone, Copy, PartialEq, Eq, Structural)]
pub struct OverviewCounts {
    pub jobs: u32,
    pub jobs_running: u32,
    pub crons: u32,
}

impl Default for OverviewCounts {
    fn default() -> (r: OverviewCounts)
        ensures
            r == (OverviewCounts { jobs: 0, jobs_running: 0, crons: 0 }),
    {
        OverviewCounts { jobs: 0, jobs_running: 0, crons: 0 }
    }
}

/// Messages local to the sidebar.
#[derive(Debug)]
pub enum SidebarMsg {
    SetMode(Mode),
    SetFocused(bool),
    SetItems(Vec<SidebarItem>),
    SetOverview(OverviewCounts),
}

#[derive(Debug)]
pub struct Sidebar {
    pub mode: Mode,
    pub focused: bool,
    pub items: Vec<SidebarItem>,
    pub selected: Option<usize>,
    pub overview: OverviewCounts,
    list_offset: usize,
}

/// The sidebar over character sequences.
pub struct SidebarModel {
    pub mode: Mode,
    pub focused: bool,
    pub items: Seq<SidebarItemModel>,
    pub selected: Option<usize>,
    pub overview: OverviewCounts,
    /// The entry in the first row.
    pub list_offset: usize,
}

impl View for Sidebar {
    type V = SidebarModel;

    closed spec fn view(&self) -> SidebarModel {
        SidebarModel {
            mode: self.mode,
            focused: self.focused,
            items: item_models(self.items@),
            selected: self.selected,
            overview: self.overview,
            list_offset: self.list_offset,
        }
    }
}

/// `current + delta`, kept from 0 to `len - 1`.
pub open spec fn clamped(current: int, delta: int, len: int) -> int {
    if current + delta < 0 {
        0
    } else if current + delta > len - 1 {
        len - 1
    } else {
        current + delta
    }
}

/// `current + delta`, kept from 0 to `len - 1`.
pub fn clamp_index(current: usize, delta: isize, len: usize) -> (r: usize)
    requires
        len > 0,
    ensures
        r == clamped(current as int, delta as int, len as int),
        r < len,
{
    let next: i128 = current as i128 + delta as i128;
    if next < 0 {
        0
    } else if next > (len - 1) as i128 {
        len - 1
    } else {
        next as usize
    }
}

impl SidebarModel {
    /// With other entries; the selection stays among them.
    pub open spec fn with_items(self, items: Seq<SidebarItemModel>) -> SidebarModel {
        SidebarModel {
            items,
            selected: match self.selected {
                Some(s) => if s >= items.len() {
                    if items.len() >= 1 {
                        Some((items.len() - 1) as usize)
                    } else {
                        None
                    }
                } else {
                    Some(s)
                },
                None => None,
            },
            list_offset: if items.len() == 0 {
                0
            } else {
                self.list_offset
            },
            ..self
        }
    }

    /// With the selection moved, as far as there are entries.
    pub open spec fn moved(self, delta: int) -> SidebarModel {
        if self.items.len() == 0 {
            SidebarModel { selected: None, list_offset: 0, ..self }
        } else {
            let current = match self.selected {
                Some(s) => s as int,
                None => 0,
            };
            SidebarModel {
                selected: Some(clamped(current, delta, self.items.len() as int) as usize),
                ..self
            }
        }
    }

    /// The entry shown in a row.
    pub open spec fn row_index(self, row: int) -> Option<int> {
        if self.list_offset + row < self.items.len() {
            Some(self.list_offset + row)
        } else {
            None
        }
    }

    /// The sidebar after a key.
    pub open spec fn after_key(self, key: KeyEvent) -> SidebarModel {
        if key.kind != KeyEventKind::Press {
            self
        } else if key.code == KeyCode::Up {
            SidebarModel {
                selected: match self.selected {
                    Some(s) => Some(
                        if s >= 1 {
                            (s - 1) as usize
                        } else {
                            0
                        },
                    ),
                    None => if self.items.len() > 0 {
                        Some((self.items.len() - 1) as usize)
                    } else {
                        None
                    },
                },
                ..self
            }
        } else if key.code == KeyCode::Down {
            let last = if self.items.len() >= 1 {
                self.items.len() - 1
            } else {
                0
            };
            SidebarModel {
                selected: match self.selected {
                    Some(s) => Some(
                        if s + 1 <= last {
                            (s + 1) as usize
                        } else {
                            last as usize
                        },
                    ),
                    None => if self.items.len() > 0 {
                        Some(0)
                    } else {
                        None
                    },
                },
                ..self
            }
        } else {
            self
        }
    }
}

/// The action that a key asks for in the sidebar.
pub open spec fn sidebar_key_action(key: KeyEvent) -> Option<ActionModel> {
    if key.kind == KeyEventKind::Press && key.modifiers == only_control() {
        match key.code {
            KeyCode::Char(c) => if c == 'c' {
                Some(ActionModel::OpenJobPicker)
            } else if c == 'b' {
                Some(ActionModel::ToggleSidebar)
            } else {
                None
            },
            _ => None,
        }
    } else {
        None
    }
}

impl Sidebar {
    pub fn new() -> (r: Sidebar)
        ensures
            r@ == (SidebarModel {
                mode: Mode::Job,
                focused: false,
                items: Seq::empty(),
                selected: None,
                overview: OverviewCounts { jobs: 0, jobs_running: 0, crons: 0 },
                list_offset: 0,
            }),
    {
        let r = Sidebar {
            mode: Mode::Job,
            focused: false,
            items: Vec::new(),
            selected: None,
            overview: OverviewCounts { jobs: 0, jobs_running: 0, crons: 0 },
            list_offset: 0,
        };
        assert(item_models(r.items@) =~= Seq::<SidebarItemModel>::empty());
        r
    }

    /// What is selected.
    pub fn selection(&self) -> (r: Option<usize>)
        ensures
            r == self@.selected,
    {
        self.selected
    }

    /// The entry in the first row.
    pub fn list_offset(&self) -> (r: usize)
        ensures
            r == self@.list_offset,
    {
        self.list_offset
    }

    /// Records which entry is drawn in the first row.
    pub fn set_list_offset(&mut self, offset: usize)
        ensures
            final(self)@ == (SidebarModel { list_offset: offset, ..old(self)@ }),
    {
        self.list_offset = offset;
    }

    pub fn list_title(&self) -> (r: &'static str)
        ensures
            r@ == match self@.mode {
                Mode::Job => " Jobs "@,
                Mode::Cron => " Crons "@,
            },
    {
        match self.mode {
            Mode::Job => " Jobs ",
            Mode::Cron => " Crons ",
        }
    }

    pub fn empty_hint(&self) -> (r: &'static str)
        ensures
            r@ == match self@.mode {
                Mode::Job => "No jobs yet."@,
                Mode::Cron => "No crons yet."@,
            },
    {
        match self.mode {
            Mode::Job => "No jobs yet.",
            Mode::Cron => "No crons yet.",
        }
    }

    pub fn move_selection(&mut self, delta: isize)
        ensures
            final(self)@ == old(self)@.moved(delta as int),
    {
        if self.items.len() == 0 {
            self.selected = None;
            self.list_offset = 0;
            return;
        }
        let current: usize = match self.selected {
            Some(s) => s,
            None => 0,
        };
        self.selected = Some(clamp_index(current, delta, self.items.len()));
    }

    /// Selects the entry shown in a row.
    pub fn select_visible_row(&mut self, row: usize) -> (r: Option<usize>)
        ensures
            match r {
                Some(i) => old(self)@.row_index(row as int) == Some(i as int) && final(self)@ == (
                SidebarModel { selected: Some(i), ..old(self)@ }),
                None => old(self)@.row_index(row as int) is None && final(self)@ == old(self)@,
            },
    {
        match self.visible_row_index(row) {
            Some(i) => {
                self.selected = Some(i);
                Some(i)
            },
            None => None,
        }
    }

    /// The entry shown in a row.
    pub fn visible_row_index(&self, row: usize) -> (r: Option<usize>)
        ensures
            match r {
                Some(i) => self@.row_index(row as int) == Some(i as int),
                None => self@.row_index(row as int) is None,
            },
    {
        if self.list_offset < self.items.len() && row < self.items.len() - self.list_offset {
            Some(self.list_offset + row)
        } else {
            None
        }
    }

    pub fn update(&mut self, msg: SidebarMsg)
        ensures
            final(self)@ == match msg {
                SidebarMsg::SetMode(mode) => SidebarModel { mode, ..old(self)@ },
                SidebarMsg::SetFocused(focused) => SidebarModel { focused, ..old(self)@ },
                SidebarMsg::SetItems(items) => old(self)@.with_items(item_models(items@)),
                SidebarMsg::SetOverview(overview) => SidebarModel { overview, ..old(self)@ },
            },
    {
        match msg {
            SidebarMsg::SetMode(mode) => {
                self.mode = mode;
            },
            SidebarMsg::SetFocused(focused) => {
                self.focused = focused;
            },
            SidebarMsg::SetItems(items) => {
                self.items = items;
                if let Some(s) = self.selected {
                    if s >= self.items.len() {
                        self.selected = if self.items.len() >= 1 {
                            Some(self.items.len() - 1)
                        } else {
                            None
                        };
                    }
                }
                if self.items.len() == 0 {
                    self.list_offset = 0;
                }
            },
            SidebarMsg::SetOverview(overview) => {
                self.overview = overview;
            },
        }
    }

    pub fn handle_key(&mut self, key: KeyEvent) -> (r: Option<UserAction>)
        ensures
            final(self)@ == old(self)@.after_key(key),
            opt_action(r) == sidebar_key_action(key),
    {
        if key.kind != KeyEventKind::Press {
            return None;
        }
        match key.code {
            KeyCode::Up => {
                self.selected = match self.selected {
                    Some(s) => Some(
                        if s >= 1 {
                            s - 1
                        } else {
                            0
                        },
                    ),
                    None => if self.items.len() > 0 {
                        Some(self.items.len() - 1)
                    } else {
                        None
                    },
                };
                None
            },
            KeyCode::Down => {
                let last: usize = if self.items.len() >= 1 {
                    self.items.len() - 1
                } else {
                    0
                };
                self.selected = match self.selected {
                    Some(s) => Some(
                        if s < last {
                            s + 1
                        } else {
                            last
                        },
                    ),
                    None => if self.items.len() > 0 {
                        Some(0)
                    } else {
                        None
                    },
                };
                None
            },
            KeyCode::Char(c) => {
                if key.modifiers.is_control() && c == 'c' {
                    Some(UserAction::OpenJobPicker)
                } else if key.modifiers.is_control() && c == 'b' {
                    Some(UserAction::ToggleSidebar)
                } else {
                    None
                }
            },
            _ => None,
        }
    }
}

// ── Laws ──

/// Whatever entries come, a selection is one of them.
pub proof fn lemma_selection_among_items(s: SidebarModel, items: Seq<SidebarItemModel>)
    requires
        items.len() <= usize::MAX,
    ensures
        s.with_items(items).selected matches Some(i) ==> i < items.len(),
{
}

/// Moving the selection lands on an entry, if there is one.
pub proof fn lemma_moved_selection_among_items(s: SidebarModel, delta: int)
    requires
        s.items.len() <= usize::MAX,
    ensures
        s.items.len() > 0 ==> (s.moved(delta).selected matches Some(i) && i < s.items.len()),
        s.items.len() == 0 ==> s.moved(delta).selected is None,
{
}

} // verus!
