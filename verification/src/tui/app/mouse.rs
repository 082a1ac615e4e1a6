//! The mouse.

use vstd::prelude::*;

use super::rows::picker_models;
use super::state::{AppModel, AppState};
use crate::tui::display::DisplayTabHit;
use crate::tui::geometry::{
    centered, contains, inner, inside, laid_out, layout_regions, minus, plus, rows_fit,
    saturating_minus, saturating_plus, screen, Rect, UiRegions,
};
use crate::tui::input_line::desired_rows;
use crate::tui::job_picker::{job_picker_popup_rect, JobPickerState};
use crate::tui::keys::{MouseEvent, MouseEventKind};
use crate::tui::message::FocusArea;
use crate::tui::sidebar::SidebarModel;
use crate::tui::status_bar::action_in;
use crate::tui::target_settings::{
    profile_hit, profile_rows, target_settings_content_rect, target_settings_popup_rect,
    target_settings_profile_hit,
};

verus! {

/// The cell under the mouse.
pub open spec fn cell(mouse: MouseEvent) -> Rect {
    Rect { x: mouse.column, y: mouse.row, width: 1, height: 1 }
}

/// Whether there is an area and the point lies in it.
pub open spec fn in_opt(area: Option<Rect>, point: Rect) -> bool {
    area matches Some(a) && inside(a, point)
}

fn is_in_opt(area: Option<Rect>, point: Rect) -> (r: bool)
    ensures
        r == in_opt(area, point),
{
    match area {
        Some(a) => contains(a, point),
        None => false,
    }
}

/// Where everything stands that the mouse can reach.
#[derive(Debug, Clone, Copy, PartialEq, Eq, Structural)]
pub struct Places {
    pub regions: UiRegions,
    /// The picker, if it is open.
    pub picker: Rect,
    /// The dialog for targets, if it is open.
    pub settings: Rect,
}

impl AppModel {
    /// Everything can stand there.
    pub open spec fn placed(self, at: Places) -> bool {
        let whole = screen(self.terminal_width, self.terminal_height);
        &&& laid_out(
            self.terminal_width,
            self.terminal_height,
            desired_rows(self.input.content),
            self.sidebar_visible(),
            at.regions,
        )
        &&& at.picker == centered(whole, 70, 60)
        &&& at.settings == centered(whole, 82, 78)
    }

    /// A click while the picker is open: on an entry, or out of the picker.
    pub open spec fn picker_clicked(self, popup: Rect, point: Rect) -> AppModel {
        let row = minus(point.y, plus(popup.y, 1));
        if !inside(popup, point) {
            self.picker_closed()
        } else if row < self.picker_items().len() {
            AppModel {
                job_picker: Some(JobPickerState { selected: Some(row as usize) }),
                ..self
            }.picked_killed()
        } else {
            self
        }
    }

    /// The profile under a point.
    pub open spec fn settings_hit(self, popup: Rect, point: Rect) -> Option<int> {
        match self.target_settings {
            Some(s) => profile_hit(
                profile_rows(s.snapshot.profiles.len()),
                inner(popup),
                point,
            ),
            None => None,
        }
    }

    /// A click while the dialog for targets is open: the first on a profile
    /// selects it, the second saves it; one out of the dialog closes it.
    pub open spec fn settings_clicked(self, popup: Rect, point: Rect) -> AppModel {
        if !inside(popup, point) {
            self.settings_closed()
        } else {
            match self.settings_hit(popup, point) {
                Some(i) => {
                    let s = self.with_focus(FocusArea::MainView);
                    if (self.target_settings->0).selected == i {
                        s.target_save()
                    } else {
                        s.settings_at(i as usize)
                    }
                },
                None => self,
            }
        }
    }

    pub open spec fn sidebar_clicked(self, list: Option<Rect>, point: Rect) -> AppModel {
        let s = self.with_focus(FocusArea::Sidebar);
        if in_opt(list, point) {
            match s.sidebar.row_index(minus(point.y, (list->0).y) as int) {
                Some(i) => AppModel {
                    sidebar: SidebarModel { selected: Some(i as usize), ..s.sidebar },
                    ..s
                }.row_opened(i),
                None => s,
            }
        } else {
            s
        }
    }

    pub open spec fn tab_clicked(self, hit: DisplayTabHit) -> AppModel {
        let s = self.with_focus(FocusArea::MainView);
        match hit {
            DisplayTabHit::Activate(i) => AppModel { display: s.display.activated(i), ..s },
            DisplayTabHit::Close(i) => s.without_tab(i),
        }
    }

    pub open spec fn results_clicked(self, area: Rect, point: Rect) -> AppModel {
        let s = self.with_focus(FocusArea::MainView);
        match s.main_view.card_at(area, point) {
            Some(i) => s.inspected(i as usize),
            None => s,
        }
    }

    /// A click on the panels.
    pub open spec fn panels_clicked(self, r: UiRegions, point: Rect) -> AppModel {
        if inside(r.header, point) {
            self.opt_acted(action_in(r.header, point.x))
        } else if inside(r.input, point) {
            AppModel {
                input: self.input.pointed(r.input, point.x, point.y),
                ..self.with_focus(FocusArea::Input)
            }
        } else if in_opt(r.sidebar, point) {
            self.sidebar_clicked(r.sidebar_list, point)
        } else if self.display.hit(r.display, point) is Some {
            self.tab_clicked(self.display.hit(r.display, point)->0)
        } else if inside(r.results_inner, point) {
            self.results_clicked(r.results_inner, point)
        } else if inside(r.main, point) {
            self.with_focus(FocusArea::MainView)
        } else {
            self
        }
    }

    /// The wheel over the panels.
    pub open spec fn panels_scrolled(
        self,
        r: UiRegions,
        kind: MouseEventKind,
        point: Rect,
    ) -> AppModel {
        if in_opt(r.sidebar, point) {
            let s = self.with_focus(FocusArea::Sidebar);
            AppModel {
                sidebar: s.sidebar.moved(
                    if kind == MouseEventKind::ScrollUp {
                        -1
                    } else {
                        1
                    },
                ),
                ..s
            }
        } else if inside(r.results, point) {
            let s = self.with_focus(FocusArea::MainView);
            AppModel { main_view: s.main_view.after_scroll(kind), ..s }
        } else {
            self
        }
    }

    /// After the mouse did something while everything stood there.
    #[verifier::opaque]
    pub open spec fn moused(self, mouse: MouseEvent, at: Places) -> AppModel {
        let point = cell(mouse);
        let clicked = mouse.kind == MouseEventKind::LeftDown;
        if self.fg_session is Some {
            self
        } else if self.job_picker is Some {
            if clicked {
                self.picker_clicked(at.picker, point)
            } else {
                self
            }
        } else if self.settings_open() {
            if clicked {
                self.settings_clicked(at.settings, point)
            } else {
                self
            }
        } else {
            match mouse.kind {
                MouseEventKind::LeftDown => self.panels_clicked(at.regions, point),
                MouseEventKind::ScrollUp => self.panels_scrolled(at.regions, mouse.kind, point),
                MouseEventKind::ScrollDown => self.panels_scrolled(at.regions, mouse.kind, point),
                MouseEventKind::Other => self,
            }
        }
    }
}

impl AppState {
    /// Where everything stands on the screen.
    pub fn places(&self) -> (r: Places)
        ensures
            self@.placed(r),
    {
        let whole = Rect::new(0, 0, self.terminal_width, self.terminal_height);
        Places {
            regions: layout_regions(
                self.terminal_width,
                self.terminal_height,
                self.input.desired_height(),
                self.sidebar_visible(),
            ),
            picker: job_picker_popup_rect(whole),
            settings: target_settings_popup_rect(whole),
        }
    }

    fn on_picker_click(&mut self, popup: Rect, point: Rect)
        requires
            old(self).wf(),
        ensures
            final(self).wf(),
            final(self)@ == old(self)@.picker_clicked(popup, point),
    {
        if !contains(popup, point) {
            self.job_picker = None;
            return;
        }
        let row: usize = saturating_minus(point.y, saturating_plus(popup.y, 1)) as usize;
        let items = self.job_picker_items();
        assert(picker_models(items@).len() == items@.len());
        if row < items.len() {
            self.job_picker = Some(JobPickerState { selected: Some(row) });
            self.kill_selected_job_from_picker();
        }
    }

    fn target_settings_hit(&self, popup: Rect, point: Rect) -> (r: Option<usize>)
        ensures
            match r {
                Some(i) => self@.settings_hit(popup, point) == Some(i as int),
                None => self@.settings_hit(popup, point) is None,
            },
    {
        let area = target_settings_content_rect(popup);
        match self.render_target_settings_view() {
            Some(view) => target_settings_profile_hit(&view, area, point),
            None => None,
        }
    }

    fn on_settings_click(&mut self, popup: Rect, point: Rect)
        requires
            old(self).wf(),
        ensures
            final(self).wf(),
            final(self)@ == old(self)@.settings_clicked(popup, point),
    {
        if !contains(popup, point) {
            self.close_target_settings();
            return;
        }
        if let Some(i) = self.target_settings_hit(popup, point) {
            let again = match &self.target_settings {
                Some(s) => s.selected_index() == i,
                None => false,
            };
            self.set_focus(FocusArea::MainView);
            if again {
                self.save_selected_target_profile();
            } else {
                self.select_target_profile(i);
            }
        }
    }

    fn on_sidebar_click(&mut self, list: Option<Rect>, point: Rect)
        requires
            old(self).wf(),
        ensures
            final(self).wf(),
            final(self)@ == old(self)@.sidebar_clicked(list, point),
    {
        self.set_focus(FocusArea::Sidebar);
        if let Some(area) = list {
            if contains(area, point) {
                let row: usize = saturating_minus(point.y, area.y) as usize;
                if let Some(i) = self.sidebar.select_visible_row(row) {
                    self.activate_sidebar_row(i);
                }
            }
        }
    }

    fn on_panel_click(&mut self, r: UiRegions, point: Rect)
        requires
            old(self).wf(),
        ensures
            final(self).wf(),
            final(self)@ == old(self)@.panels_clicked(r, point),
    {
        if contains(r.header, point) {
            if let Some(action) = self.status_bar.action_at(r.header, point.x) {
                self.act(action);
            }
            return;
        }
        if contains(r.input, point) {
            self.set_focus(FocusArea::Input);
            self.input.set_cursor_from_point(r.input, point.x, point.y);
            return;
        }
        if is_in_opt(r.sidebar, point) {
            self.on_sidebar_click(r.sidebar_list, point);
            return;
        }
        if let Some(hit) = self.display.hit(r.display, point) {
            self.set_focus(FocusArea::MainView);
            match hit {
                DisplayTabHit::Activate(i) => self.display.activate(i),
                DisplayTabHit::Close(i) => self.close_display_tab(i),
            }
            return;
        }
        if contains(r.results_inner, point) {
            self.set_focus(FocusArea::MainView);
            if let Some(i) = self.main_view.card_at_point(r.results_inner, point) {
                self.inspect_card(i);
            }
            return;
        }
        if contains(r.main, point) {
            self.set_focus(FocusArea::MainView);
        }
    }

    fn on_panel_scroll(&mut self, r: UiRegions, kind: MouseEventKind, point: Rect)
        ensures
            final(self)@ == old(self)@.panels_scrolled(r, kind, point),
            old(self).wf() ==> final(self).wf(),
    {
        if is_in_opt(r.sidebar, point) {
            self.set_focus(FocusArea::Sidebar);
            let delta: isize = if kind == MouseEventKind::ScrollUp {
                -1
            } else {
                1
            };
            self.sidebar.move_selection(delta);
        } else if contains(r.results, point) {
            self.set_focus(FocusArea::MainView);
            self.main_view.handle_scroll(kind);
        }
    }

    /// Takes what the mouse did while everything stood there.
    pub fn mouse_at(&mut self, mouse: MouseEvent, at: Places)
        requires
            old(self).wf(),
        ensures
            final(self).wf(),
            final(self)@ == old(self)@.moused(mouse, at),
    {
        proof {
            reveal(AppModel::moused);
        }
        if self.fg_active() {
            return;
        }
        let point = Rect::new(mouse.column, mouse.row, 1, 1);
        let clicked = mouse.kind == MouseEventKind::LeftDown;
        if self.job_picker_open() {
            if clicked {
                self.on_picker_click(at.picker, point);
            }
            return;
        }
        if self.target_settings_open() {
            if clicked {
                self.on_settings_click(at.settings, point);
            }
            return;
        }
        match mouse.kind {
            MouseEventKind::LeftDown => self.on_panel_click(at.regions, point),
            MouseEventKind::ScrollUp => self.on_panel_scroll(at.regions, mouse.kind, point),
            MouseEventKind::ScrollDown => self.on_panel_scroll(at.regions, mouse.kind, point),
            MouseEventKind::Other => {},
        }
    }

    /// Takes what the mouse did, where everything stands now.
    pub(crate) fn on_mouse(&mut self, mouse: MouseEvent)
        requires
            old(self).wf(),
        ensures
            final(self).wf(),
            exists|at: Places|
                old(self)@.placed(at) && final(self)@ == #[trigger] old(self)@.moused(mouse, at),
    {
        let at = self.places();
        self.mouse_at(mouse, at);
    }
}

// ── Laws ──

/// While a job is in the foreground the mouse does nothing, wherever everything
/// stands.
pub proof fn lemma_mouse_leaves_foreground(s: AppModel, mouse: MouseEvent, at: Places)
    requires
        s.fg_session is Some,
    ensures
        s.moused(mouse, at) == s,
{
    reveal(AppModel::moused);
}

/// On a screen on which the rows fit there is one place for everything, so what
/// the mouse does there depends on the state and the event alone.
pub proof fn lemma_one_place_for_everything(
    s: AppModel,
    mouse: MouseEvent,
    at: Places,
    other: Places,
)
    requires
        rows_fit(s.terminal_height, desired_rows(s.input.content)),
        s.placed(at),
        s.placed(other),
    ensures
        at == other,
        s.moused(mouse, at) == s.moused(mouse, other),
{
}

} // verus!
