//! The dialog for target profiles in the state.

use vstd::prelude::*;
use vstd::string::*;

use super::rows::opt_ref;
use super::state::{AppModel, AppState, Effect, EffectModel};
use crate::text;
use crate::text::Text;
use crate::tui::message::FocusArea;
use crate::tui::target_config::{
    display_path_with_home, shown_path, ProfileModel, SnapshotModel, TargetSettingsSnapshot,
};
use crate::tui::target_settings::{
    already_default, format_saved_prefix, format_settings, opt_is, profile_rows, saved_prefix,
    settings_text, SettingsModel, TargetProfileSaveFeedback, TargetSettingsState,
    TargetSettingsView, TargetStyle,
};

verus! {

pub open spec fn is_ssh(p: Option<ProfileModel>) -> bool {
    p matches Some(x) && x.transport.name() == "ssh"@
}

pub open spec fn is_unix(p: Option<ProfileModel>) -> bool {
    p matches Some(x) && x.transport.name() == "unix"@
}

/// What is told after a profile was saved.
pub open spec fn saved_notice(
    name: Text,
    source: Text,
    session: Option<Text>,
    ssh: bool,
    live: bool,
) -> Text {
    let head = saved_prefix(name, source);
    match session {
        Some(current) => if current == name {
            head + "current session already uses it"@
        } else if ssh {
            head + "current session still uses `"@ + current
                + "`. SSH applies after restart/reconnect because live reconnect is unsupported"@
        } else if live {
            head + "current session still uses `"@ + current + "`. Press R to reconnect now"@
        } else {
            head + "current session still uses `"@ + current + "` until reconnect/restart"@
        },
        None => if ssh {
            head
                + "SSH applies on the next restart/reconnect because live reconnect is unsupported"@
        } else {
            head + "reconnect/restart cue to apply"@
        },
    }
}

pub open spec fn snapshot_result(r: Result<TargetSettingsSnapshot, String>) -> Result<
    SnapshotModel,
    Text,
> {
    match r {
        Ok(s) => Ok(s@),
        Err(e) => Err(e@),
    }
}

impl AppModel {
    pub open spec fn settings_open(self) -> bool {
        self.target_settings is Some || self.target_settings_error is Some
    }

    pub open spec fn settings_closed(self) -> AppModel {
        AppModel { target_settings: None, target_settings_error: None, ..self }
    }

    /// With the dialog, if it is open, changed.
    pub open spec fn with_settings(self, settings: SettingsModel) -> AppModel {
        AppModel { target_settings: Some(settings), ..self }
    }

    pub open spec fn settings_content(self) -> Option<Text> {
        match self.target_settings_error {
            Some(e) => Some(e),
            None => match self.target_settings {
                Some(s) => Some(
                    settings_text(s, self.session_profile_name, TargetStyle::RestartOnly, self.home),
                ),
                None => None,
            },
        }
    }

    pub open spec fn settings_toggled(self) -> AppModel {
        if self.settings_open() {
            self.settings_closed()
        } else {
            AppModel { job_picker: None, ..self }.with_effect(
                EffectModel::LoadTargets { notice: None },
            ).with_focus(FocusArea::MainView)
        }
    }

    pub open spec fn settings_reloaded(self) -> AppModel {
        self.with_effect(
            EffectModel::LoadTargets { notice: Some("reloaded target profiles from disk"@) },
        ).with_focus(FocusArea::MainView)
    }

    /// With the profiles that were read; the selection stays where it can.
    pub open spec fn settings_loaded(self, notice: Option<Text>, r: Result<SnapshotModel, Text>) -> AppModel {
        match r {
            Ok(snapshot) => {
                let opened = match notice {
                    Some(n) => SettingsModel::opened(snapshot).noted(n),
                    None => SettingsModel::opened(snapshot),
                };
                let preferred = match self.target_settings {
                    Some(s) => s.selected_name(),
                    None => None,
                };
                AppModel {
                    target_settings: Some(
                        match preferred {
                            Some(name) => opened.at_name(name),
                            None => opened,
                        },
                    ),
                    target_settings_error: None,
                    ..self
                }
            },
            Err(e) => AppModel {
                target_settings: None,
                target_settings_error: Some("failed to load target settings: "@ + e),
                ..self
            },
        }
    }

    pub open spec fn settings_moved(self, delta: int) -> AppModel {
        match self.target_settings {
            Some(s) => self.with_settings(s.moved(delta)),
            None => self,
        }
    }

    pub open spec fn settings_at_edge(self, last: bool) -> AppModel {
        match self.target_settings {
            Some(s) => self.with_settings(
                if last {
                    s.at_last()
                } else {
                    SettingsModel { selected: 0, ..s }
                },
            ),
            None => self,
        }
    }

    pub open spec fn settings_at(self, index: usize) -> AppModel {
        match self.target_settings {
            Some(s) => self.with_settings(s.at_index(index)),
            None => self,
        }
    }

    /// With the notice in the dialog, if it is open, and nothing to reconnect to.
    pub open spec fn settings_settled(self, notice: Text) -> AppModel {
        match self.target_settings {
            Some(s) => self.with_settings(s.settled(notice)),
            None => self,
        }
    }

    /// With the selected profile on its way to be the default.
    pub open spec fn target_save(self) -> AppModel {
        match self.target_settings {
            Some(s) => match s.selected_name() {
                Some(name) => if s.snapshot.default_profile == name {
                    self.settings_settled(already_default(name))
                } else {
                    self.with_effect(
                        EffectModel::SaveTarget { profile_name: name, snapshot: s.snapshot },
                    )
                },
                None => self,
            },
            None => self,
        }
    }

    /// After a profile was made the default, or not.
    pub open spec fn target_saved(self, name: Text, r: Result<SnapshotModel, Text>) -> AppModel {
        match r {
            Ok(snapshot) => {
                let profile = snapshot.profile(name);
                let live = self.can_reconnect && is_unix(profile);
                let notice = saved_notice(
                    name,
                    shown_path(snapshot.source_path, self.home),
                    self.session_profile_name,
                    is_ssh(profile),
                    live,
                );
                AppModel {
                    target_settings: Some(
                        SettingsModel {
                            pending: if live && self.session_profile_name != Some(name) {
                                Some(name)
                            } else {
                                None
                            },
                            ..SettingsModel::opened(snapshot).noted(notice)
                        },
                    ),
                    target_settings_error: None,
                    ..self
                }
            },
            Err(e) => self.settings_settled("save failed: "@ + e),
        }
    }

    /// With the profile that can be reconnected to on its way.
    pub open spec fn target_switch(self) -> AppModel {
        match self.target_settings {
            Some(s) => match s.pending {
                Some(name) => self.with_effect(EffectModel::SwitchTarget { profile_name: name }),
                None => self,
            },
            None => self,
        }
    }

    /// After a switch was asked for: whether it was taken, or why the target
    /// cannot be connected to.
    pub open spec fn target_switched(self, name: Text, r: Result<bool, Text>) -> AppModel {
        match r {
            Err(e) => self.settings_settled("reconnect failed: "@ + e),
            Ok(taken) => if !self.can_reconnect {
                self
            } else if !taken {
                self.settings_settled("reconnect command could not be sent; try again"@)
            } else {
                AppModel { pending_reconnect_profile_name: Some(name), ..self }.settings_settled(
                    "reconnecting to `"@ + name + "`…"@,
                )
            },
        }
    }
}

impl AppState {
    pub fn target_settings_open(&self) -> (r: bool)
        ensures
            r == self@.settings_open(),
    {
        self.target_settings.is_some() || self.target_settings_error.is_some()
    }

    pub fn target_settings_can_save(&self) -> (r: bool)
        ensures
            r == self@.target_settings is Some,
    {
        self.target_settings.is_some()
    }

    pub(crate) fn close_target_settings(&mut self)
        ensures
            final(self)@ == old(self)@.settings_closed(),
            old(self).wf() ==> final(self).wf(),
    {
        self.target_settings = None;
        self.target_settings_error = None;
    }

    pub fn render_target_settings_view(&self) -> (r: Option<TargetSettingsView>)
        ensures
            match r {
                Some(v) => self@.target_settings matches Some(s) && v.content@ == settings_text(
                    s,
                    self@.session_profile_name,
                    TargetStyle::RestartOnly,
                    self@.home,
                ) && v.profile_line_rows@ == profile_rows(s.snapshot.profiles.len()),
                None => self@.target_settings is None,
            },
    {
        match &self.target_settings {
            Some(s) => Some(
                format_settings(
                    s,
                    opt_ref(&self.session_profile_name),
                    TargetStyle::RestartOnly,
                    opt_ref(&self.home),
                ),
            ),
            None => None,
        }
    }

    /// The text of the dialog.
    pub fn target_settings_content(&self) -> (r: Option<String>)
        ensures
            text::opt_text(r) == self@.settings_content(),
    {
        if let Some(e) = &self.target_settings_error {
            return Some(e.clone());
        }
        match self.render_target_settings_view() {
            Some(view) => Some(view.content),
            None => None,
        }
    }

    pub(crate) fn open_target_settings(&mut self)
        ensures
            final(self)@ == old(self)@.settings_toggled(),
            old(self).wf() ==> final(self).wf(),
    {
        if self.target_settings_open() {
            self.close_target_settings();
            return;
        }
        self.job_picker = None;
        self.push_effect(Effect::LoadTargets { notice: None });
        self.set_focus(FocusArea::MainView);
    }

    pub(crate) fn reload_target_settings(&mut self)
        ensures
            final(self)@ == old(self)@.settings_reloaded(),
            old(self).wf() ==> final(self).wf(),
    {
        self.push_effect(
            Effect::LoadTargets { notice: Some("reloaded target profiles from disk".to_owned()) },
        );
        self.set_focus(FocusArea::MainView);
    }

    /// Takes the profiles that were read.
    pub(crate) fn load_target_settings(
        &mut self,
        notice: Option<String>,
        result: Result<TargetSettingsSnapshot, String>,
    )
        ensures
            final(self)@ == old(self)@.settings_loaded(text::opt_text(notice), snapshot_result(result)),
            old(self).wf() ==> final(self).wf(),
    {
        match result {
            Ok(snapshot) => {
                let mut state = match notice {
                    Some(n) => TargetSettingsState::with_notice(snapshot, n),
                    None => TargetSettingsState::new(snapshot),
                };
                if let Some(s) = &self.target_settings {
                    if let Some(name) = s.selected_profile_name() {
                        state.select_profile_name(name);
                    }
                }
                self.target_settings = Some(state);
                self.target_settings_error = None;
            },
            Err(e) => {
                self.target_settings = None;
                self.target_settings_error = Some(
                    text::concat2("failed to load target settings: ", e.as_str()),
                );
            },
        }
    }

    pub fn move_target_selection(&mut self, delta: isize)
        ensures
            final(self)@ == old(self)@.settings_moved(delta as int),
            old(self).wf() ==> final(self).wf(),
    {
        if let Some(s) = &mut self.target_settings {
            s.move_selection(delta);
        }
    }

    pub(crate) fn move_target_selection_to_edge(&mut self, last: bool)
        ensures
            final(self)@ == old(self)@.settings_at_edge(last),
            old(self).wf() ==> final(self).wf(),
    {
        if let Some(s) = &mut self.target_settings {
            if last {
                s.select_last();
            } else {
                s.select_first();
            }
        }
    }

    pub(crate) fn select_target_profile(&mut self, index: usize)
        ensures
            final(self)@ == old(self)@.settings_at(index),
            old(self).wf() ==> final(self).wf(),
    {
        if let Some(s) = &mut self.target_settings {
            s.select_index(index);
        }
    }

    fn settle_target_settings(&mut self, notice: &str)
        ensures
            final(self)@ == old(self)@.settings_settled(notice@),
            old(self).wf() ==> final(self).wf(),
    {
        if let Some(s) = &mut self.target_settings {
            s.set_notice_without_pending_reconnect(notice);
        }
    }

    pub(crate) fn save_selected_target_profile(&mut self)
        ensures
            final(self)@ == old(self)@.target_save(),
            old(self).wf() ==> final(self).wf(),
    {
        let (name, is_default, snapshot) = match &self.target_settings {
            Some(s) => match s.selected_profile_name() {
                Some(name) => (
                    name.to_owned(),
                    text::str_eq(s.default_profile_name(), name),
                    s.snapshot(),
                ),
                None => {
                    return;
                },
            },
            None => {
                return;
            },
        };
        if is_default {
            let notice = text::concat3(
                "`",
                name.as_str(),
                "` is already the default target for the next launch",
            );
            self.settle_target_settings(notice.as_str());
            return;
        }
        self.push_effect(Effect::SaveTarget { profile_name: name, snapshot });
    }

    /// Takes what saving a profile gave.
    pub(crate) fn finish_target_save(
        &mut self,
        name: String,
        result: Result<TargetSettingsSnapshot, String>,
    )
        ensures
            final(self)@ == old(self)@.target_saved(name@, snapshot_result(result)),
            old(self).wf() ==> final(self).wf(),
    {
        match result {
            Ok(snapshot) => {
                let source = display_path_with_home(
                    snapshot.source_path.as_str(),
                    opt_ref(&self.home),
                );
                let (ssh, unix) = match snapshot.profile(name.as_str()) {
                    Some(p) => (
                        text::str_eq(p.transport.text(), "ssh"),
                        text::str_eq(p.transport.text(), "unix"),
                    ),
                    None => (false, false),
                };
                let live = self.can_reconnect && unix;
                let head = format_saved_prefix(name.as_str(), source.as_str());
                let session = opt_ref(&self.session_profile_name);
                let same = opt_is(session, name.as_str());
                let notice = format_saved_notice(head.as_str(), name.as_str(), session, ssh, live);
                let feedback = TargetProfileSaveFeedback { notice, pending_reconnect: live && !same };
                self.target_settings = Some(
                    TargetSettingsState::with_save_feedback(snapshot, name.as_str(), feedback),
                );
                self.target_settings_error = None;
            },
            Err(e) => {
                let notice = text::concat2("save failed: ", e.as_str());
                self.settle_target_settings(notice.as_str());
            },
        }
    }

    pub(crate) fn trigger_reconnect_now(&mut self)
        ensures
            final(self)@ == old(self)@.target_switch(),
            old(self).wf() ==> final(self).wf(),
    {
        let name = match &self.target_settings {
            Some(s) => match s.pending_reconnect_profile_name() {
                Some(name) => name.to_owned(),
                None => {
                    return;
                },
            },
            None => {
                return;
            },
        };
        self.push_effect(Effect::SwitchTarget { profile_name: name });
    }

    /// Takes what asking for a switch gave.
    pub(crate) fn finish_target_switch(&mut self, name: String, result: Result<bool, String>)
        ensures
            final(self)@ == old(self)@.target_switched(
                name@,
                match result {
                    Ok(taken) => Ok(taken),
                    Err(e) => Err(e@),
                },
            ),
            old(self).wf() ==> final(self).wf(),
    {
        match result {
            Err(e) => {
                let notice = text::concat2("reconnect failed: ", e.as_str());
                self.settle_target_settings(notice.as_str());
            },
            Ok(taken) => {
                if self.can_reconnect {
                    if taken {
                        let notice = text::concat3("reconnecting to `", name.as_str(), "`…");
                        self.pending_reconnect_profile_name = Some(name);
                        self.settle_target_settings(notice.as_str());
                    } else {
                        self.settle_target_settings(
                            "reconnect command could not be sent; try again",
                        );
                    }
                }
            },
        }
    }
}

fn format_saved_notice(head: &str, name: &str, session: Option<&str>, ssh: bool, live: bool) -> (r: String)
    ensures
        forall|source: Text|
            head@ == saved_prefix(name@, source) ==> r@ == #[trigger] saved_notice(
                name@,
                source,
                text::opt_str(session),
                ssh,
                live,
            ),
{
    match session {
        Some(current) => if text::str_eq(current, name) {
            text::concat2(head, "current session already uses it")
        } else if ssh {
            text::concat4(
                head,
                "current session still uses `",
                current,
                "`. SSH applies after restart/reconnect because live reconnect is unsupported",
            )
        } else if live {
            text::concat4(head, "current session still uses `", current, "`. Press R to reconnect now")
        } else {
            text::concat4(head, "current session still uses `", current, "` until reconnect/restart")
        },
        None => if ssh {
            text::concat2(
                head,
                "SSH applies on the next restart/reconnect because live reconnect is unsupported",
            )
        } else {
            text::concat2(head, "reconnect/restart cue to apply")
        },
    }
}

// ── Laws ──

/// A saved SSH target is never offered for a live reconnect.
pub proof fn lemma_ssh_waits_for_restart(s: AppModel, name: Text, snapshot: SnapshotModel)
    requires
        is_ssh(snapshot.profile(name)),
    ensures
        s.target_saved(name, Ok(snapshot)).target_settings matches Some(t) && t.pending is None,
{
    reveal_strlit("ssh");
    reveal_strlit("unix");
    assert("ssh"@.len() != "unix"@.len());
}

/// A live reconnect is offered only if the connection can be moved and is not
/// there already.
pub proof fn lemma_reconnect_offered(s: AppModel, name: Text, snapshot: SnapshotModel)
    ensures
        s.target_saved(name, Ok(snapshot)).target_settings matches Some(t) && (t.pending is Some
            ==> t.pending == Some(name) && s.can_reconnect && s.session_profile_name != Some(name)),
{
}

} // verus!
