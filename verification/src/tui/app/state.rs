//! The parts of the state.

use vstd::prelude::*;

use super::rows::{
    count_running, cron_items, cron_models, cron_sidebar_items, job_items, job_models,
    job_sidebar_items, running_count, CronRow, CronRowModel, JobRow, JobRowModel,
};
use super::session::{FgModel, FgSession};
use super::tables::{cron_card_models, CardTable, CronCard, CronCardModel, PendingTable};
use crate::mode::Mode;
use crate::text;
use crate::text::Text;
use crate::tui::display::{DisplayPane, PaneModel};
use crate::tui::input_line::{InputLine, InputModel, InputMsg};
use crate::tui::ipc::{WriterHandle, WriterModel};
use crate::tui::job_picker::JobPickerState;
use crate::tui::main_view::{MainView, MainViewModel, MainViewMsg};
use crate::tui::message::{FocusArea, MouseMode};
use crate::tui::sidebar::{
    OverviewCounts, Sidebar, SidebarItemModel, SidebarModel, SidebarMsg,
};
use crate::tui::status_bar::{StatusBar, StatusBarMsg};
use crate::tui::submission::PendingModel;
use crate::tui::target_config::{SnapshotModel, TargetSettingsSnapshot};
use crate::tui::target_settings::{SettingsModel, TargetSettingsState};

verus! {

/// What is to be done outside of the front end's state.
#[derive(Debug)]
#[allow(inconsistent_fields)]
pub enum Effect {
    /// Put a text on the clipboard.
    Copy { label: String, content: String },
    /// Read the target profiles.
    LoadTargets { notice: Option<String> },
    /// Make a profile the default.
    SaveTarget { profile_name: String, snapshot: TargetSettingsSnapshot },
    /// Connect to another target.
    SwitchTarget { profile_name: String },
    /// Restart the daemon for the command in this card.
    Restart { card_index: usize },
    /// List a directory, and the commands of the search path if they are wanted.
    ListDirectory { base_dir: String, commands: bool },
}

/// An effect over character sequences.
#[allow(inconsistent_fields)]
pub enum EffectModel {
    Copy { label: Text, content: Text },
    LoadTargets { notice: Option<Text> },
    SaveTarget { profile_name: Text, snapshot: SnapshotModel },
    SwitchTarget { profile_name: Text },
    Restart { card_index: usize },
    ListDirectory { base_dir: Text, commands: bool },
}

impl View for Effect {
    type V = EffectModel;

    open spec fn view(&self) -> EffectModel {
        match self {
            Effect::Copy { label, content } => EffectModel::Copy {
                label: label@,
                content: content@,
            },
            Effect::LoadTargets { notice } => EffectModel::LoadTargets {
                notice: text::opt_text(*notice),
            },
            Effect::SaveTarget { profile_name, snapshot } => EffectModel::SaveTarget {
                profile_name: profile_name@,
                snapshot: snapshot@,
            },
            Effect::SwitchTarget { profile_name } => EffectModel::SwitchTarget {
                profile_name: profile_name@,
            },
            Effect::Restart { card_index } => EffectModel::Restart { card_index: *card_index },
            Effect::ListDirectory { base_dir, commands } => EffectModel::ListDirectory {
                base_dir: base_dir@,
                commands: *commands,
            },
        }
    }
}

pub open spec fn effect_models(v: Seq<Effect>) -> Seq<EffectModel> {
    v.map_values(|e: Effect| e@)
}

/// The state of the front end.
pub struct AppState {
    pub input: InputLine,
    pub main_view: MainView,
    pub sidebar: Sidebar,
    pub status_bar: StatusBar,
    pub writer: Option<WriterHandle>,
    pub connected: bool,
    /// Whether the connection can be moved to another target.
    pub can_reconnect: bool,
    /// Whether the daemon can be restarted from here.
    pub restart_available: bool,
    /// The profile that is being connected to.
    pub pending_reconnect_profile_name: Option<String>,
    pub jobs: Vec<JobRow>,
    pub crons: Vec<CronRow>,
    /// Cards of jobs.
    pub job_cards: CardTable,
    /// Cards of jobs that crons started.
    pub cron_job_cards: Vec<CronCard>,
    /// Cards of chains.
    pub chain_cards: CardTable,
    pub fg_session: Option<FgSession>,
    pub display: DisplayPane,
    /// Jobs whose output is subscribed to.
    pub display_subscriptions: Vec<String>,
    pub job_picker: Option<JobPickerState>,
    pub target_settings: Option<TargetSettingsState>,
    pub target_settings_error: Option<String>,
    pub pending_submissions: PendingTable,
    pub session_profile_name: Option<String>,
    pub home: Option<String>,
    pub current_dir: String,
    pub mode: Mode,
    /// Whether the sidebar is shown; by the width if it was not chosen.
    pub show_sidebar: Option<bool>,
    pub focus: FocusArea,
    pub mouse_mode: MouseMode,
    pub should_quit: bool,
    pub terminal_width: u16,
    pub terminal_height: u16,
    /// What is still to be done outside, oldest first.
    pub effects: Vec<Effect>,
}

/// The state over character sequences.
pub struct AppModel {
    pub input: InputModel,
    pub main_view: MainViewModel,
    pub sidebar: SidebarModel,
    pub status_bar: StatusBar,
    pub writer: Option<WriterModel>,
    pub connected: bool,
    pub can_reconnect: bool,
    pub restart_available: bool,
    pub pending_reconnect_profile_name: Option<Text>,
    pub jobs: Seq<JobRowModel>,
    pub crons: Seq<CronRowModel>,
    pub job_cards: Seq<(Text, usize)>,
    pub cron_job_cards: Seq<CronCardModel>,
    pub chain_cards: Seq<(Text, usize)>,
    pub fg_session: Option<FgModel>,
    pub display: PaneModel,
    pub display_subscriptions: Seq<Text>,
    pub job_picker: Option<JobPickerState>,
    pub target_settings: Option<SettingsModel>,
    pub target_settings_error: Option<Text>,
    pub pending_submissions: Seq<(u32, PendingModel)>,
    pub session_profile_name: Option<Text>,
    pub home: Option<Text>,
    pub current_dir: Text,
    pub mode: Mode,
    pub show_sidebar: Option<bool>,
    pub focus: FocusArea,
    pub mouse_mode: MouseMode,
    pub should_quit: bool,
    pub terminal_width: u16,
    pub terminal_height: u16,
    pub effects: Seq<EffectModel>,
}

pub open spec fn opt_view<T: View>(o: Option<T>) -> Option<T::V> {
    match o {
        Some(x) => Some(x@),
        None => None,
    }
}

impl View for AppState {
    type V = AppModel;

    open spec fn view(&self) -> AppModel {
        AppModel {
            input: self.input@,
            main_view: self.main_view@,
            sidebar: self.sidebar@,
            status_bar: self.status_bar,
            writer: opt_view(self.writer),
            connected: self.connected,
            can_reconnect: self.can_reconnect,
            restart_available: self.restart_available,
            pending_reconnect_profile_name: text::opt_text(self.pending_reconnect_profile_name),
            jobs: job_models(self.jobs@),
            crons: cron_models(self.crons@),
            job_cards: self.job_cards@,
            cron_job_cards: cron_card_models(self.cron_job_cards@),
            chain_cards: self.chain_cards@,
            fg_session: opt_view(self.fg_session),
            display: self.display@,
            display_subscriptions: text::texts(self.display_subscriptions@),
            job_picker: self.job_picker,
            target_settings: opt_view(self.target_settings),
            target_settings_error: text::opt_text(self.target_settings_error),
            pending_submissions: self.pending_submissions@,
            session_profile_name: text::opt_text(self.session_profile_name),
            home: text::opt_text(self.home),
            current_dir: self.current_dir@,
            mode: self.mode,
            show_sidebar: self.show_sidebar,
            focus: self.focus,
            mouse_mode: self.mouse_mode,
            should_quit: self.should_quit,
            terminal_width: self.terminal_width,
            terminal_height: self.terminal_height,
            effects: effect_models(self.effects@),
        }
    }
}

/// The lower 32 bits of a number.
pub open spec fn low32(n: nat) -> u32 {
    (n % 0x1_0000_0000) as u32
}

fn to_u32(n: usize) -> (r: u32)
    ensures
        r == low32(n as nat),
{
    (n as u64 % 0x1_0000_0000) as u32
}

impl AppModel {
    pub open spec fn sidebar_visible(self) -> bool {
        match self.show_sidebar {
            Some(v) => v,
            None => self.terminal_width >= 100,
        }
    }

    pub open spec fn with_focus(self, focus: FocusArea) -> AppModel {
        AppModel {
            focus,
            sidebar: SidebarModel { focused: focus == FocusArea::Sidebar, ..self.sidebar },
            ..self
        }
    }

    pub open spec fn items(self) -> Seq<SidebarItemModel> {
        match self.mode {
            Mode::Job => job_items(self.jobs),
            Mode::Cron => cron_items(self.crons),
        }
    }

    pub open spec fn counts(self) -> OverviewCounts {
        OverviewCounts {
            jobs: low32(self.jobs.len()),
            jobs_running: low32(running_count(self.jobs)),
            crons: low32(self.crons.len()),
        }
    }

    pub open spec fn with_overview(self, counts: OverviewCounts) -> AppModel {
        AppModel {
            status_bar: StatusBar { overview: counts, ..self.status_bar },
            sidebar: SidebarModel { overview: counts, ..self.sidebar },
            ..self
        }
    }

    /// With the entries of the sidebar brought up to date.
    pub open spec fn with_items(self) -> AppModel {
        AppModel { sidebar: self.sidebar.with_items(self.items()), ..self }.with_overview(
            self.counts(),
        )
    }

    /// With every panel in the mode.
    pub open spec fn with_mode_views(self) -> AppModel {
        AppModel {
            input: InputModel { mode: self.mode, ..self.input },
            main_view: MainViewModel { mode: self.mode, ..self.main_view },
            sidebar: SidebarModel { mode: self.mode, ..self.sidebar },
            status_bar: StatusBar { mode: self.mode, ..self.status_bar },
            ..self
        }.with_items()
    }

    /// With the clear action offered exactly if nothing waits.
    pub open spec fn with_clear_action(self) -> AppModel {
        AppModel {
            status_bar: StatusBar {
                clear_enabled: self.pending_submissions.len() == 0,
                ..self.status_bar
            },
            ..self
        }
    }

    pub open spec fn with_effect(self, effect: EffectModel) -> AppModel {
        AppModel { effects: self.effects.push(effect), ..self }
    }

    /// The state before anything happened.
    pub open spec fn blank() -> AppModel {
        AppModel {
            input: InputModel {
                content: Seq::empty(),
                cursor: 0,
                history: Seq::empty(),
                history_idx: None,
                stashed: Seq::empty(),
                mode: Mode::Job,
            },
            main_view: MainViewModel { mode: Mode::Job, cards: Seq::empty(), scroll_offset: 0 },
            sidebar: SidebarModel {
                mode: Mode::Job,
                focused: false,
                items: Seq::empty(),
                selected: None,
                overview: OverviewCounts { jobs: 0, jobs_running: 0, crons: 0 },
                list_offset: 0,
            },
            status_bar: StatusBar {
                connected: false,
                mouse_mode: MouseMode::UiCapture,
                mode: Mode::Job,
                clear_enabled: true,
                overview: OverviewCounts { jobs: 0, jobs_running: 0, crons: 0 },
            },
            writer: None,
            connected: false,
            can_reconnect: false,
            restart_available: false,
            pending_reconnect_profile_name: None,
            jobs: Seq::empty(),
            crons: Seq::empty(),
            job_cards: Seq::empty(),
            cron_job_cards: Seq::empty(),
            chain_cards: Seq::empty(),
            fg_session: None,
            display: PaneModel::empty(),
            display_subscriptions: Seq::empty(),
            job_picker: None,
            target_settings: None,
            target_settings_error: None,
            pending_submissions: Seq::empty(),
            session_profile_name: None,
            home: None,
            current_dir: "."@,
            mode: Mode::Job,
            show_sidebar: None,
            focus: FocusArea::Input,
            mouse_mode: MouseMode::UiCapture,
            should_quit: false,
            terminal_width: 80,
            terminal_height: 24,
            effects: Seq::empty(),
        }
    }
}

impl AppState {
    /// The input line is in order, and so is the terminal of a session.
    pub open spec fn wf(&self) -> bool {
        &&& self.input.wf()
        &&& match self.fg_session {
            Some(s) => s.wf(),
            None => true,
        }
    }

    pub fn new() -> (r: AppState)
        ensures
            r.wf(),
            r@ == AppModel::blank(),
    {
        let mut state = AppState {
            input: InputLine::new(),
            main_view: MainView::new(),
            sidebar: Sidebar::new(),
            status_bar: StatusBar::new(),
            writer: None,
            connected: false,
            can_reconnect: false,
            restart_available: false,
            pending_reconnect_profile_name: None,
            jobs: Vec::new(),
            crons: Vec::new(),
            job_cards: CardTable::new(),
            cron_job_cards: Vec::new(),
            chain_cards: CardTable::new(),
            fg_session: None,
            display: DisplayPane::new(),
            display_subscriptions: Vec::new(),
            job_picker: None,
            target_settings: None,
            target_settings_error: None,
            pending_submissions: PendingTable::new(),
            session_profile_name: None,
            home: None,
            current_dir: ".".to_owned(),
            mode: Mode::Job,
            show_sidebar: None,
            focus: FocusArea::Input,
            mouse_mode: MouseMode::UiCapture,
            should_quit: false,
            terminal_width: 80,
            terminal_height: 24,
            effects: Vec::new(),
        };
        proof {
            assert(state@.jobs =~= Seq::<JobRowModel>::empty());
            assert(state@.crons =~= Seq::<CronRowModel>::empty());
            assert(state@.cron_job_cards =~= Seq::<CronCardModel>::empty());
            assert(state@.display_subscriptions =~= Seq::<Text>::empty());
            assert(state@.effects =~= Seq::<EffectModel>::empty());
            assert(state@ == AppModel::blank());
        }
        state.sync_mode_views();
        state.set_focus(FocusArea::Input);
        state.status_bar.update(StatusBarMsg::SetMouseMode(state.mouse_mode));
        state.refresh_clear_action();
        proof {
            let b = AppModel::blank();
            assert(b.items() =~= b.sidebar.items);
            assert(b.counts() == b.sidebar.overview);
            assert(b.with_mode_views() == b);
        }
        state
    }

    pub fn set_session_profile_name(&mut self, session_profile_name: Option<String>)
        ensures
            final(self)@ == (AppModel {
                session_profile_name: text::opt_text(session_profile_name),
                ..old(self)@
            }),
            old(self).wf() ==> final(self).wf(),
    {
        self.session_profile_name = session_profile_name;
    }

    /// Says whether the connection can be moved to another target.
    pub fn set_can_reconnect(&mut self, can_reconnect: bool)
        ensures
            final(self)@ == (AppModel { can_reconnect, ..old(self)@ }),
            old(self).wf() ==> final(self).wf(),
    {
        self.can_reconnect = can_reconnect;
    }

    /// Says whether the daemon can be restarted from here.
    pub fn set_restart_available(&mut self, restart_available: bool)
        ensures
            final(self)@ == (AppModel { restart_available, ..old(self)@ }),
            old(self).wf() ==> final(self).wf(),
    {
        self.restart_available = restart_available;
    }

    /// Says where the front end runs.
    pub fn set_directories(&mut self, home: Option<String>, current_dir: String)
        ensures
            final(self)@ == (AppModel {
                home: text::opt_text(home),
                current_dir: current_dir@,
                ..old(self)@
            }),
            old(self).wf() ==> final(self).wf(),
    {
        self.home = home;
        self.current_dir = current_dir;
    }

    /// Hands out what is to be done outside, oldest first.
    pub fn take_effects(&mut self) -> (r: Vec<Effect>)
        ensures
            effect_models(r@) == old(self)@.effects,
            final(self)@ == (AppModel { effects: Seq::empty(), ..old(self)@ }),
            old(self).wf() ==> final(self).wf(),
    {
        let mut out: Vec<Effect> = Vec::new();
        std::mem::swap(&mut out, &mut self.effects);
        assert(effect_models(self.effects@) =~= Seq::<EffectModel>::empty());
        out
    }

    pub fn sidebar_visible(&self) -> (r: bool)
        ensures
            r == self@.sidebar_visible(),
    {
        match self.show_sidebar {
            Some(v) => v,
            None => self.terminal_width >= 100,
        }
    }

    pub fn set_focus(&mut self, focus: FocusArea)
        ensures
            final(self)@ == old(self)@.with_focus(focus),
            old(self).wf() ==> final(self).wf(),
    {
        self.focus = focus;
        let focused = match focus {
            FocusArea::Sidebar => true,
            _ => false,
        };
        self.sidebar.update(SidebarMsg::SetFocused(focused));
    }

    /// Tells the header and the sidebar how many there are.
    pub fn set_overview(&mut self, counts: OverviewCounts)
        ensures
            final(self)@ == old(self)@.with_overview(counts),
            old(self).wf() ==> final(self).wf(),
    {
        self.status_bar.update(StatusBarMsg::SetOverview(counts));
        self.sidebar.update(SidebarMsg::SetOverview(counts));
    }

    pub fn sync_sidebar_items(&mut self)
        ensures
            final(self)@ == old(self)@.with_items(),
            old(self).wf() ==> final(self).wf(),
    {
        let items = match self.mode {
            Mode::Job => job_sidebar_items(&self.jobs),
            Mode::Cron => cron_sidebar_items(&self.crons),
        };
        let counts = OverviewCounts {
            jobs: to_u32(self.jobs.len()),
            jobs_running: to_u32(count_running(&self.jobs)),
            crons: to_u32(self.crons.len()),
        };
        assert(counts == self@.counts());
        self.sidebar.update(SidebarMsg::SetItems(items));
        self.set_overview(counts);
    }

    pub fn sync_mode_views(&mut self)
        requires
            old(self).wf(),
        ensures
            final(self)@ == old(self)@.with_mode_views(),
            final(self).wf(),
    {
        self.input.update(InputMsg::SetMode(self.mode));
        self.main_view.update(MainViewMsg::SetMode(self.mode));
        self.sidebar.update(SidebarMsg::SetMode(self.mode));
        self.status_bar.update(StatusBarMsg::SetMode(self.mode));
        self.sync_sidebar_items();
    }

    pub(crate) fn refresh_clear_action(&mut self)
        ensures
            final(self)@ == old(self)@.with_clear_action(),
            old(self).wf() ==> final(self).wf(),
    {
        let idle = self.pending_submissions.len() == 0;
        self.status_bar.update(StatusBarMsg::SetClearEnabled(idle));
    }

    pub(crate) fn push_effect(&mut self, effect: Effect)
        ensures
            final(self)@ == old(self)@.with_effect(effect@),
            old(self).wf() ==> final(self).wf(),
    {
        let ghost before = self.effects@;
        self.effects.push(effect);
        assert(effect_models(self.effects@) =~= effect_models(before).push(effect@));
    }
}

} // verus!
