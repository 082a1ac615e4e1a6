//! The dialog for target profiles.

use vstd::prelude::*;
use vstd::string::*;

use crate::text;
use crate::text::Text;
use crate::tui::geometry::{
    centered, centered_rect, contains, inner, inner_rect, inside, minus, saturating_minus, Rect,
};
use crate::tui::lines::{no_lines, push_empty, push_labelled, push_line};
use crate::tui::sidebar::{clamp_index, clamped};
use crate::tui::target_config::{
    display_path_with_home, profile_models, shown_path, KindModel, ProfileModel, SnapshotModel,
    TargetProfileKind, TargetProfileSource, TargetProfileSummary, TargetSettingsSnapshot,
};

verus! {

/// The dialog.
#[derive(Debug)]
pub struct TargetSettingsState {
    snapshot: TargetSettingsSnapshot,
    selected: usize,
    notice: Option<String>,
    /// The profile that can be reconnected to now.
    pending_reconnect_profile: Option<String>,
}

/// The dialog over character sequences.
pub struct SettingsModel {
    pub snapshot: SnapshotModel,
    pub selected: usize,
    pub notice: Option<Text>,
    pub pending: Option<Text>,
}

impl View for TargetSettingsState {
    type V = SettingsModel;

    closed spec fn view(&self) -> SettingsModel {
        SettingsModel {
            snapshot: self.snapshot@,
            selected: self.selected,
            notice: text::opt_text(self.notice),
            pending: text::opt_text(self.pending_reconnect_profile),
        }
    }
}

/// The text of the dialog, and the rows in which the profiles stand.
#[derive(Debug)]
pub struct TargetSettingsView {
    pub content: String,
    pub profile_line_rows: Vec<usize>,
}

/// What is told after a profile was saved.
#[derive(Debug, PartialEq, Eq)]
pub struct TargetProfileSaveFeedback {
    pub notice: String,
    pub pending_reconnect: bool,
}

/// What saving the selected profile does.
#[derive(Debug)]
pub enum TargetProfileSaveAction {
    Save { snapshot: TargetSettingsSnapshot, profile_name: String },
    Notice(String),
}

/// What saving does, over character sequences.
pub enum SaveActionModel {
    Save { snapshot: SnapshotModel, profile_name: Text },
    Notice(Text),
}

impl View for TargetProfileSaveAction {
    type V = SaveActionModel;

    open spec fn view(&self) -> SaveActionModel {
        match self {
            TargetProfileSaveAction::Save { snapshot, profile_name } => SaveActionModel::Save {
                snapshot: snapshot@,
                profile_name: profile_name@,
            },
            TargetProfileSaveAction::Notice(text) => SaveActionModel::Notice(text@),
        }
    }
}

/// Where the dialog stands.
pub fn target_settings_popup_rect(area: Rect) -> (r: Rect)
    ensures
        r == centered(area, 82, 78),
{
    centered_rect(area, 82, 78)
}

pub fn target_settings_content_rect(popup: Rect) -> (r: Rect)
    ensures
        r == inner(popup),
{
    inner_rect(popup)
}

/// The first profile from `i` on with this name.
pub open spec fn named_from(profiles: Seq<ProfileModel>, name: Text, i: int) -> Option<int>
    decreases profiles.len() - i,
{
    if !(0 <= i < profiles.len()) {
        None
    } else if profiles[i].name == name {
        Some(i)
    } else {
        named_from(profiles, name, i + 1)
    }
}

proof fn lemma_named_from(profiles: Seq<ProfileModel>, name: Text, i: int)
    ensures
        named_from(profiles, name, i) matches Some(k) ==> 0 <= k < profiles.len()
            && profiles[k].name == name,
    decreases profiles.len() - i,
{
    if 0 <= i < profiles.len() && profiles[i].name != name {
        lemma_named_from(profiles, name, i + 1);
    }
}

fn find_profile(profiles: &Vec<TargetProfileSummary>, name: &str) -> (r: Option<usize>)
    ensures
        match r {
            Some(i) => named_from(profile_models(profiles@), name@, 0) == Some(i as int) && i
                < profiles@.len(),
            None => named_from(profile_models(profiles@), name@, 0) is None,
        },
{
    let mut i: usize = 0;
    while i < profiles.len()
        invariant
            i <= profiles@.len(),
            named_from(profile_models(profiles@), name@, 0) == named_from(
                profile_models(profiles@),
                name@,
                i as int,
            ),
        decreases profiles@.len() - i,
    {
        assert(profile_models(profiles@)[i as int] == profiles@[i as int]@);
        if text::str_eq(profiles[i].name.as_str(), name) {
            return Some(i);
        }
        i = i + 1;
    }
    None
}

impl SnapshotModel {
    pub open spec fn profile(self, name: Text) -> Option<ProfileModel> {
        match named_from(self.profiles, name, 0) {
            Some(i) => Some(self.profiles[i]),
            None => None,
        }
    }
}

impl TargetSettingsSnapshot {
    /// The first profile with this name.
    pub fn profile(&self, name: &str) -> (r: Option<&TargetProfileSummary>)
        ensures
            match r {
                Some(p) => self@.profile(name@) == Some(p@),
                None => self@.profile(name@) is None,
            },
    {
        match find_profile(&self.profiles, name) {
            Some(i) => Some(&self.profiles[i]),
            None => None,
        }
    }
}

impl SettingsModel {
    /// The dialog for these profiles, with the default selected.
    pub open spec fn opened(snapshot: SnapshotModel) -> SettingsModel {
        SettingsModel {
            snapshot,
            selected: match named_from(snapshot.profiles, snapshot.default_profile, 0) {
                Some(i) => i as usize,
                None => 0,
            },
            notice: None,
            pending: None,
        }
    }

    pub open spec fn noted(self, notice: Text) -> SettingsModel {
        SettingsModel { notice: Some(notice), ..self }
    }

    /// With a notice, and no profile to reconnect to.
    pub open spec fn settled(self, notice: Text) -> SettingsModel {
        SettingsModel { notice: Some(notice), pending: None, ..self }
    }

    pub open spec fn moved(self, delta: int) -> SettingsModel {
        SettingsModel {
            selected: if self.snapshot.profiles.len() == 0 {
                0
            } else {
                clamped(
                    self.selected as int,
                    delta,
                    self.snapshot.profiles.len() as int,
                ) as usize
            },
            ..self
        }
    }

    pub open spec fn selected_profile(self) -> Option<ProfileModel> {
        if self.selected < self.snapshot.profiles.len() {
            Some(self.snapshot.profiles[self.selected as int])
        } else {
            None
        }
    }

    pub open spec fn selected_name(self) -> Option<Text> {
        match self.selected_profile() {
            Some(p) => Some(p.name),
            None => None,
        }
    }

    pub open spec fn save_action(self) -> Option<SaveActionModel> {
        match self.selected_profile() {
            None => None,
            Some(p) => Some(
                if !p.usable() {
                    SaveActionModel::Notice(
                        "`"@ + p.name
                            + "` is not a usable target profile; fix the config and reload"@,
                    )
                } else if self.snapshot.default_profile == p.name {
                    SaveActionModel::Notice(already_default(p.name))
                } else {
                    SaveActionModel::Save { snapshot: self.snapshot, profile_name: p.name }
                },
            ),
        }
    }

    pub open spec fn at_last(self) -> SettingsModel {
        SettingsModel {
            selected: if self.snapshot.profiles.len() == 0 {
                0
            } else {
                (self.snapshot.profiles.len() - 1) as usize
            },
            ..self
        }
    }

    pub open spec fn at_name(self, name: Text) -> SettingsModel {
        match named_from(self.snapshot.profiles, name, 0) {
            Some(i) => SettingsModel { selected: i as usize, ..self },
            None => self,
        }
    }

    pub open spec fn at_index(self, index: usize) -> SettingsModel {
        if index < self.snapshot.profiles.len() {
            SettingsModel { selected: index, ..self }
        } else {
            self
        }
    }
}

pub open spec fn already_default(name: Text) -> Text {
    "`"@ + name + "` is already the default target for the next launch"@
}

impl TargetSettingsState {
    /// The dialog for these profiles, with the default selected.
    pub fn new(snapshot: TargetSettingsSnapshot) -> (r: TargetSettingsState)
        ensures
            r@ == SettingsModel::opened(snapshot@),
    {
        let selected: usize = match find_profile(
            &snapshot.profiles,
            snapshot.default_profile.as_str(),
        ) {
            Some(i) => i,
            None => 0,
        };
        TargetSettingsState { snapshot, selected, notice: None, pending_reconnect_profile: None }
    }

    pub fn with_notice(snapshot: TargetSettingsSnapshot, notice: String) -> (r: TargetSettingsState)
        ensures
            r@ == SettingsModel::opened(snapshot@).noted(notice@),
    {
        let mut state = TargetSettingsState::new(snapshot);
        state.notice = Some(notice);
        state
    }

    pub fn with_save_feedback(
        snapshot: TargetSettingsSnapshot,
        profile_name: &str,
        feedback: TargetProfileSaveFeedback,
    ) -> (r: TargetSettingsState)
        ensures
            r@ == (SettingsModel {
                pending: if feedback.pending_reconnect {
                    Some(profile_name@)
                } else {
                    None
                },
                ..SettingsModel::opened(snapshot@).noted(feedback.notice@)
            }),
    {
        let mut state = TargetSettingsState::with_notice(snapshot, feedback.notice);
        if feedback.pending_reconnect {
            state.pending_reconnect_profile = Some(profile_name.to_owned());
        }
        state
    }

    pub fn set_notice(&mut self, notice: &str)
        ensures
            final(self)@ == old(self)@.noted(notice@),
    {
        self.notice = Some(notice.to_owned());
    }

    pub fn set_notice_without_pending_reconnect(&mut self, notice: &str)
        ensures
            final(self)@ == old(self)@.settled(notice@),
    {
        self.notice = Some(notice.to_owned());
        self.pending_reconnect_profile = None;
    }

    pub fn has_pending_reconnect(&self) -> (r: bool)
        ensures
            r == self@.pending is Some,
    {
        self.pending_reconnect_profile.is_some()
    }

    pub fn pending_reconnect_profile_name(&self) -> (r: Option<&str>)
        ensures
            text::opt_str(r) == self@.pending,
    {
        match &self.pending_reconnect_profile {
            Some(name) => Some(name.as_str()),
            None => None,
        }
    }

    pub fn default_profile_name(&self) -> (r: &str)
        ensures
            r@ == self@.snapshot.default_profile,
    {
        self.snapshot.default_profile.as_str()
    }

    pub fn selected_index(&self) -> (r: usize)
        ensures
            r == self@.selected,
    {
        self.selected
    }

    pub fn notice(&self) -> (r: Option<&str>)
        ensures
            text::opt_str(r) == self@.notice,
    {
        match &self.notice {
            Some(notice) => Some(notice.as_str()),
            None => None,
        }
    }

    /// Moves the selection, as far as there are profiles.
    pub fn move_selection(&mut self, delta: isize)
        ensures
            final(self)@ == old(self)@.moved(delta as int),
    {
        let n: usize = self.snapshot.profiles.len();
        if n == 0 {
            self.selected = 0;
            return;
        }
        self.selected = clamp_index(self.selected, delta, n);
    }

    pub fn selected_profile(&self) -> (r: Option<&TargetProfileSummary>)
        ensures
            match r {
                Some(p) => self@.selected_profile() == Some(p@),
                None => self@.selected_profile() is None,
            },
    {
        if self.selected < self.snapshot.profiles.len() {
            Some(&self.snapshot.profiles[self.selected])
        } else {
            None
        }
    }

    pub fn selected_profile_name(&self) -> (r: Option<&str>)
        ensures
            text::opt_str(r) == self@.selected_name(),
    {
        match self.selected_profile() {
            Some(p) => Some(p.name.as_str()),
            None => None,
        }
    }

    pub fn selected_profile_can_be_saved(&self) -> (r: bool)
        ensures
            r == match self@.selected_profile() {
                Some(p) => p.usable(),
                None => false,
            },
    {
        match self.selected_profile() {
            Some(p) => target_profile_can_be_saved(p),
            None => false,
        }
    }

    /// What saving the selected profile does.
    pub fn selected_profile_save_action(&self) -> (r: Option<TargetProfileSaveAction>)
        ensures
            match r {
                Some(a) => self@.save_action() == Some(a@),
                None => self@.save_action() is None,
            },
    {
        match self.selected_profile() {
            None => None,
            Some(p) => {
                let name = p.name.as_str();
                if !target_profile_can_be_saved(p) {
                    return Some(
                        TargetProfileSaveAction::Notice(
                            text::concat3(
                                "`",
                                name,
                                "` is not a usable target profile; fix the config and reload",
                            ),
                        ),
                    );
                }
                if text::str_eq(self.default_profile_name(), name) {
                    return Some(
                        TargetProfileSaveAction::Notice(
                            text::concat3(
                                "`",
                                name,
                                "` is already the default target for the next launch",
                            ),
                        ),
                    );
                }
                Some(
                    TargetProfileSaveAction::Save {
                        snapshot: self.snapshot.clone(),
                        profile_name: name.to_owned(),
                    },
                )
            },
        }
    }

    /// A copy of the profiles.
    pub fn snapshot(&self) -> (r: TargetSettingsSnapshot)
        ensures
            r@ == self@.snapshot,
    {
        self.snapshot.clone()
    }

    pub fn select_first(&mut self)
        ensures
            final(self)@ == (SettingsModel { selected: 0, ..old(self)@ }),
    {
        self.selected = 0;
    }

    pub fn select_last(&mut self)
        ensures
            final(self)@ == old(self)@.at_last(),
    {
        let n: usize = self.snapshot.profiles.len();
        self.selected = if n == 0 {
            0
        } else {
            n - 1
        };
    }

    pub fn select_profile_name(&mut self, profile_name: &str)
        ensures
            final(self)@ == old(self)@.at_name(profile_name@),
    {
        if let Some(i) = find_profile(&self.snapshot.profiles, profile_name) {
            self.selected = i;
        }
    }

    pub fn select_index(&mut self, index: usize)
        ensures
            final(self)@ == old(self)@.at_index(index),
    {
        if index < self.snapshot.profiles.len() {
            self.selected = index;
        }
    }
}

/// Wherever the selection is moved, it stays on a profile if there is one.
pub proof fn lemma_selection_on_a_profile(s: SettingsModel, delta: int, name: Text, index: usize)
    requires
        0 < s.snapshot.profiles.len() <= usize::MAX,
    ensures
        SettingsModel::opened(s.snapshot).selected_profile() is Some,
        s.moved(delta).selected_profile() is Some,
        s.at_last().selected_profile() is Some,
        s.selected_profile() is Some ==> s.at_name(name).selected_profile() is Some,
        s.selected_profile() is Some ==> s.at_index(index).selected_profile() is Some,
{
    lemma_named_from(s.snapshot.profiles, s.snapshot.default_profile, 0);
    lemma_named_from(s.snapshot.profiles, name, 0);
}

// ── Text ──

/// How the dialog speaks of SSH targets.
#[derive(Debug, Clone, Copy, PartialEq, Eq, Structural)]
pub enum TargetStyle {
    /// SSH targets can be reconnected to like others.
    Live,
    /// SSH targets apply after a restart, and an old configuration is pointed out.
    RestartOnly,
}

pub open spec fn alert(p: ProfileModel, style: TargetStyle) -> Option<Text> {
    match style {
        TargetStyle::Live => match p.transport {
            KindModel::Missing => Some("missing"@),
            KindModel::Invalid => Some("invalid"@),
            KindModel::Unsupported(name) => Some("invalid"@),
            _ => None,
        },
        TargetStyle::RestartOnly => if p.transport.name() == "missing"@ {
            Some("missing"@)
        } else if p.transport.name() == "invalid"@ {
            Some("invalid"@)
        } else if p.transport.name() == "ssh"@ {
            Some("restart-only"@)
        } else if p.detail == "unrecognized transport kind"@ {
            Some("invalid"@)
        } else {
            None
        },
    }
}

pub open spec fn source_tag(p: ProfileModel) -> Option<Text> {
    match p.source {
        TargetProfileSource::Local => Some("permanent"@),
        TargetProfileSource::Configured => Some("configured"@),
        TargetProfileSource::AutoDetectedSsh => Some("auto"@),
        TargetProfileSource::Missing => None,
    }
}

fn target_profile_alert(p: &TargetProfileSummary, style: TargetStyle) -> (r: Option<&'static str>)
    ensures
        text::opt_str(r) == alert(p@, style),
{
    match style {
        TargetStyle::Live => match &p.transport {
            TargetProfileKind::Missing => Some("missing"),
            TargetProfileKind::Invalid => Some("invalid"),
            TargetProfileKind::Unsupported(_) => Some("invalid"),
            _ => None,
        },
        TargetStyle::RestartOnly => {
            let name = p.transport.text();
            if text::str_eq(name, "missing") {
                Some("missing")
            } else if text::str_eq(name, "invalid") {
                Some("invalid")
            } else if text::str_eq(name, "ssh") {
                Some("restart-only")
            } else if text::str_eq(p.detail.as_str(), "unrecognized transport kind") {
                Some("invalid")
            } else {
                None
            }
        },
    }
}

fn target_profile_source_tag(p: &TargetProfileSummary) -> (r: Option<&'static str>)
    ensures
        text::opt_str(r) == source_tag(p@),
{
    match p.source {
        TargetProfileSource::Local => Some("permanent"),
        TargetProfileSource::Configured => Some("configured"),
        TargetProfileSource::AutoDetectedSsh => Some("auto"),
        TargetProfileSource::Missing => None,
    }
}

pub open spec fn tag_if(condition: bool, tag: Text) -> Seq<Text> {
    if condition {
        seq![tag]
    } else {
        Seq::empty()
    }
}

pub open spec fn opt_tag(tag: Option<Text>) -> Seq<Text> {
    match tag {
        Some(t) => seq![t],
        None => Seq::empty(),
    }
}

/// The tags of profile `i`.
pub open spec fn tags(
    s: SettingsModel,
    i: int,
    session: Option<Text>,
    style: TargetStyle,
) -> Seq<Text> {
    let p = s.snapshot.profiles[i];
    tag_if(session == Some(p.name), "session"@) + tag_if(
        s.snapshot.default_profile == p.name,
        "default"@,
    ) + tag_if(s.selected_name() == Some(p.name), "selected"@) + opt_tag(source_tag(p)) + opt_tag(
        alert(p, style),
    )
}

pub open spec fn profile_line(
    s: SettingsModel,
    i: int,
    session: Option<Text>,
    style: TargetStyle,
) -> Text {
    let p = s.snapshot.profiles[i];
    let tags = tags(s, i, session, style);
    (if i == s.selected {
        ">"@
    } else {
        " "@
    }) + " "@ + p.name + " ("@ + p.transport.name() + ")"@ + (if tags.len() == 0 {
        Seq::empty()
    } else {
        " ["@ + text::join(tags, ", "@) + "]"@
    })
}

/// The lines of the first `n` profiles.
pub open spec fn profile_lines(
    s: SettingsModel,
    n: int,
    session: Option<Text>,
    style: TargetStyle,
) -> Seq<Text>
    decreases n,
{
    if n <= 0 {
        Seq::empty()
    } else {
        profile_lines(s, n - 1, session, style).push(profile_line(s, n - 1, session, style)).push(
            "    "@ + s.snapshot.profiles[n - 1].detail,
        )
    }
}

pub open spec fn header_lines(
    s: SettingsModel,
    session: Option<Text>,
    style: TargetStyle,
    home: Option<Text>,
) -> Seq<Text> {
    seq![
        "source: "@ + shown_path(s.snapshot.source_path, home) + (if style
            == TargetStyle::RestartOnly && s.snapshot.using_legacy_config {
            " (legacy config fallback)"@
        } else {
            ""@
        }),
        "current session target: "@ + (match session {
            Some(name) => name,
            None => "n/a"@,
        }),
        "default on next launch: "@ + s.snapshot.default_profile,
        "ssh auto-detection: "@ + (if s.snapshot.auto_detect_ssh {
            "enabled (~/.ssh/config)"@
        } else {
            "disabled"@
        }),
        match s.selected_name() {
            Some(name) => if name == s.snapshot.default_profile {
                "selection: "@ + name + " (already the saved default)"@
            } else {
                "selection: "@ + name + " (press Enter to save for next launch)"@
            },
            None => "selection: none"@,
        },
        "Ctrl+R reloads target profiles from disk; Esc or Ctrl+T closes this dialog."@,
        Seq::empty(),
        "profiles:"@,
    ]
}

pub open spec fn settings_lines(
    s: SettingsModel,
    session: Option<Text>,
    style: TargetStyle,
    home: Option<Text>,
) -> Seq<Text> {
    header_lines(s, session, style, home) + profile_lines(
        s,
        s.snapshot.profiles.len() as int,
        session,
        style,
    ) + (match s.notice {
        Some(notice) => seq![Seq::empty(), "note: "@ + notice],
        None => Seq::empty(),
    })
}

pub open spec fn settings_text(
    s: SettingsModel,
    session: Option<Text>,
    style: TargetStyle,
    home: Option<Text>,
) -> Text {
    text::join(settings_lines(s, session, style, home), "\n"@)
}

/// The row of each profile: two rows each, below eight rows of header.
pub open spec fn profile_rows(n: nat) -> Seq<usize> {
    Seq::new(n, |i: int| (8 + 2 * i) as usize)
}

fn push_if(tags: &mut Vec<String>, condition: bool, tag: &str)
    ensures
        text::texts(final(tags)@) == text::texts(old(tags)@) + tag_if(condition, tag@),
{
    let ghost before = text::texts(tags@);
    if condition {
        push_line(tags, tag.to_owned());
    }
    assert(text::texts(tags@) =~= before + tag_if(condition, tag@));
}

fn push_opt_tag(tags: &mut Vec<String>, tag: Option<&'static str>)
    ensures
        text::texts(final(tags)@) == text::texts(old(tags)@) + opt_tag(text::opt_str(tag)),
{
    let ghost before = text::texts(tags@);
    if let Some(t) = tag {
        push_line(tags, t.to_owned());
    }
    assert(text::texts(tags@) =~= before + opt_tag(text::opt_str(tag)));
}

fn profile_tags(
    state: &TargetSettingsState,
    i: usize,
    session: Option<&str>,
    style: TargetStyle,
) -> (r: Vec<String>)
    requires
        i < state@.snapshot.profiles.len(),
    ensures
        text::texts(r@) == tags(state@, i as int, text::opt_str(session), style),
{
    let p = &state.snapshot.profiles[i];
    assert(state@.snapshot.profiles[i as int] == p@);
    let name = p.name.as_str();
    let mut out = no_lines();
    push_if(&mut out, opt_is(session, name), "session");
    push_if(&mut out, text::str_eq(state.default_profile_name(), name), "default");
    push_if(&mut out, opt_is(state.selected_profile_name(), name), "selected");
    push_opt_tag(&mut out, target_profile_source_tag(p));
    push_opt_tag(&mut out, target_profile_alert(p, style));
    assert(text::texts(out@) =~= tags(state@, i as int, text::opt_str(session), style));
    out
}

/// Whether there is a string and it is this one.
pub fn opt_is(a: Option<&str>, b: &str) -> (r: bool)
    ensures
        r == (text::opt_str(a) == Some(b@)),
{
    match a {
        Some(x) => text::str_eq(x, b),
        None => false,
    }
}

fn format_profile_line(
    state: &TargetSettingsState,
    i: usize,
    session: Option<&str>,
    style: TargetStyle,
) -> (r: String)
    requires
        i < state@.snapshot.profiles.len(),
    ensures
        r@ == profile_line(state@, i as int, text::opt_str(session), style),
{
    let p = &state.snapshot.profiles[i];
    assert(state@.snapshot.profiles[i as int] == p@);
    let tags = profile_tags(state, i, session, style);
    let marker = if i == state.selected {
        ">"
    } else {
        " "
    };
    let mut line = text::concat5(marker, " ", p.name.as_str(), " (", p.transport.text());
    line.append(")");
    if tags.len() > 0 {
        let joined = text::join_strings(&tags, ", ");
        line.append(text::concat3(" [", joined.as_str(), "]").as_str());
    }
    proof {
        assert(text::texts(tags@).len() == tags@.len());
        assert(line@ =~= profile_line(state@, i as int, text::opt_str(session), style));
    }
    line
}

fn format_header(
    state: &TargetSettingsState,
    session: Option<&str>,
    style: TargetStyle,
    home: Option<&str>,
) -> (r: Vec<String>)
    ensures
        text::texts(r@) == header_lines(state@, text::opt_str(session), style, text::opt_str(home)),
{
    let mut lines = no_lines();
    let path = display_path_with_home(state.snapshot.source_path.as_str(), home);
    let restart_only = match style {
        TargetStyle::RestartOnly => true,
        TargetStyle::Live => false,
    };
    let suffix = if restart_only && state.snapshot.using_legacy_config {
        " (legacy config fallback)"
    } else {
        ""
    };
    push_line(&mut lines, text::concat3("source: ", path.as_str(), suffix));
    push_labelled(
        &mut lines,
        "current session target: ",
        match session {
            Some(name) => name,
            None => "n/a",
        },
    );
    push_labelled(&mut lines, "default on next launch: ", state.default_profile_name());
    push_labelled(
        &mut lines,
        "ssh auto-detection: ",
        if state.snapshot.auto_detect_ssh {
            "enabled (~/.ssh/config)"
        } else {
            "disabled"
        },
    );
    let selection = match state.selected_profile_name() {
        Some(name) => if text::str_eq(name, state.default_profile_name()) {
            text::concat3("selection: ", name, " (already the saved default)")
        } else {
            text::concat3("selection: ", name, " (press Enter to save for next launch)")
        },
        None => "selection: none".to_owned(),
    };
    push_line(&mut lines, selection);
    push_line(
        &mut lines,
        "Ctrl+R reloads target profiles from disk; Esc or Ctrl+T closes this dialog.".to_owned(),
    );
    push_empty(&mut lines);
    push_line(&mut lines, "profiles:".to_owned());
    assert(text::texts(lines@) =~= header_lines(state@, text::opt_str(session), style, text::opt_str(home)));
    lines
}

/// The dialog as text.
pub fn format_settings(
    state: &TargetSettingsState,
    session_profile_name: Option<&str>,
    style: TargetStyle,
    home: Option<&str>,
) -> (r: TargetSettingsView)
    ensures
        r.content@ == settings_text(state@, text::opt_str(session_profile_name), style, text::opt_str(home)),
        r.profile_line_rows@ == profile_rows(state@.snapshot.profiles.len()),
{
    let ghost session = text::opt_str(session_profile_name);
    let ghost s = state@;
    let mut lines = format_header(state, session_profile_name, style, home);
    let ghost header = text::texts(lines@);
    let mut rows: Vec<usize> = Vec::new();
    let mut i: usize = 0;
    assert(text::texts(lines@) =~= header + profile_lines(s, 0, session, style));
    assert(rows@ =~= profile_rows(0));
    while i < state.snapshot.profiles.len()
        invariant
            i <= state.snapshot.profiles@.len(),
            s == state@,
            session == text::opt_str(session_profile_name),
            header.len() == 8,
            text::texts(lines@) == header + profile_lines(s, i as int, session, style),
            profile_lines(s, i as int, session, style).len() == 2 * i,
            rows@ == profile_rows(i as nat),
        decreases state.snapshot.profiles@.len() - i,
    {
        let n: usize = lines.len();
        assert(text::texts(lines@).len() == lines@.len());
        rows.push(n);
        push_line(&mut lines, format_profile_line(state, i, session_profile_name, style));
        assert(s.snapshot.profiles[i as int] == state.snapshot.profiles@[i as int]@);
        push_labelled(&mut lines, "    ", state.snapshot.profiles[i].detail.as_str());
        proof {
            assert(text::texts(lines@) =~= header + profile_lines(s, i + 1, session, style));
            assert(rows@ =~= profile_rows((i + 1) as nat));
        }
        i = i + 1;
    }
    if let Some(notice) = state.notice() {
        push_empty(&mut lines);
        push_labelled(&mut lines, "note: ", notice);
    }
    assert(text::texts(lines@) =~= settings_lines(s, session, style, text::opt_str(home)));
    TargetSettingsView { content: text::join_strings(&lines, "\n"), profile_line_rows: rows }
}

/// The dialog as text, with all targets alike.
pub fn format_target_settings_view(
    state: &TargetSettingsState,
    session_profile_name: Option<&str>,
    home: Option<&str>,
) -> (r: TargetSettingsView)
    ensures
        r.content@ == settings_text(
            state@,
            text::opt_str(session_profile_name),
            TargetStyle::Live,
            text::opt_str(home),
        ),
        r.profile_line_rows@ == profile_rows(state@.snapshot.profiles.len()),
{
    format_settings(state, session_profile_name, TargetStyle::Live, home)
}

pub open spec fn settings_footer(can_save: bool, has_pending_reconnect: bool) -> Text {
    "Targets: Up/Down/Home/End select  •  "@ + (if can_save {
        "Enter save default  •  "@
    } else {
        ""@
    }) + "Ctrl+R reload  •  Esc/Ctrl+T close  •  Ctrl+Y copy  •  Shift+Tab mode"@ + (
    if has_pending_reconnect {
        "  •  R reconnect now"@
    } else {
        ""@
    })
}

pub fn target_settings_footer_text(can_save: bool, has_pending_reconnect: bool) -> (r: String)
    ensures
        r@ == settings_footer(can_save, has_pending_reconnect),
{
    let primary = if can_save {
        "Enter save default  •  "
    } else {
        ""
    };
    let hint = if has_pending_reconnect {
        "  •  R reconnect now"
    } else {
        ""
    };
    text::concat4(
        "Targets: Up/Down/Home/End select  •  ",
        primary,
        "Ctrl+R reload  •  Esc/Ctrl+T close  •  Ctrl+Y copy  •  Shift+Tab mode",
        hint,
    )
}

pub fn target_settings_modal_footer_text(can_save: bool) -> (r: &'static str)
    ensures
        r@ == if can_save {
            " Enter save   Ctrl+R reload   Esc close "@
        } else {
            " Ctrl+R reload   Esc close "@
        },
{
    if can_save {
        " Enter save   Ctrl+R reload   Esc close "
    } else {
        " Ctrl+R reload   Esc close "
    }
}

/// The first row from `i` on that is `wanted`.
pub open spec fn row_from(rows: Seq<usize>, wanted: int, i: int) -> Option<int>
    decreases rows.len() - i,
{
    if !(0 <= i < rows.len()) {
        None
    } else if rows[i] == wanted {
        Some(i)
    } else {
        row_from(rows, wanted, i + 1)
    }
}

/// The profile whose row lies under a point.
pub open spec fn profile_hit(rows: Seq<usize>, content_area: Rect, point: Rect) -> Option<int> {
    if inside(content_area, point) {
        row_from(rows, minus(point.y, content_area.y) as int, 0)
    } else {
        None
    }
}

pub fn target_settings_profile_hit(
    view: &TargetSettingsView,
    content_area: Rect,
    point: Rect,
) -> (r: Option<usize>)
    ensures
        match r {
            Some(i) => profile_hit(view.profile_line_rows@, content_area, point) == Some(i as int),
            None => profile_hit(view.profile_line_rows@, content_area, point) is None,
        },
{
    if !contains(content_area, point) {
        return None;
    }
    let wanted: usize = saturating_minus(point.y, content_area.y) as usize;
    let mut i: usize = 0;
    while i < view.profile_line_rows.len()
        invariant
            i <= view.profile_line_rows@.len(),
            row_from(view.profile_line_rows@, wanted as int, 0) == row_from(
                view.profile_line_rows@,
                wanted as int,
                i as int,
            ),
            profile_hit(view.profile_line_rows@, content_area, point) == row_from(
                view.profile_line_rows@,
                wanted as int,
                0,
            ),
        decreases view.profile_line_rows@.len() - i,
    {
        if view.profile_line_rows[i] == wanted {
            return Some(i);
        }
        i = i + 1;
    }
    None
}

/// Whether a session can move to the target without a restart.
pub fn target_profile_supports_live_reconnect(profile: &TargetProfileSummary) -> (r: bool)
    ensures
        r == profile@.usable(),
{
    profile.is_usable_target()
}

pub fn target_profile_can_be_saved(profile: &TargetProfileSummary) -> (r: bool)
    ensures
        r == profile@.usable(),
{
    profile.is_usable_target()
}

/// How every notice on a saved profile starts.
pub open spec fn saved_prefix(profile_name: Text, source: Text) -> Text {
    "saved default profile `"@ + profile_name + "` to "@ + source + "; "@
}

/// What is told after a profile was saved.
pub open spec fn saved_feedback(
    source: Text,
    profile_name: Text,
    session: Option<Text>,
    live: bool,
) -> (Text, bool) {
    let head = saved_prefix(profile_name, source);
    match session {
        Some(current) => if current == profile_name {
            (head + "current session already uses it"@, false)
        } else if live {
            (
                head + "current session still uses `"@ + current
                    + "`. Press R to reconnect now"@,
                true,
            )
        } else {
            (head + "current session still uses `"@ + current + "` until reconnect/restart"@, false)
        },
        None => (head + "reconnect/restart cue to apply"@, false),
    }
}

pub(crate) fn format_saved_prefix(profile_name: &str, source: &str) -> (r: String)
    ensures
        r@ == saved_prefix(profile_name@, source@),
{
    text::concat5("saved default profile `", profile_name, "` to ", source, "; ")
}

pub fn saved_target_profile_feedback(
    snapshot: &TargetSettingsSnapshot,
    profile_name: &str,
    session_profile_name: Option<&str>,
    live_reconnect_available: bool,
    home: Option<&str>,
) -> (r: TargetProfileSaveFeedback)
    ensures
        (r.notice@, r.pending_reconnect) == saved_feedback(
            shown_path(snapshot@.source_path, text::opt_str(home)),
            profile_name@,
            text::opt_str(session_profile_name),
            live_reconnect_available,
        ),
{
    let source = display_path_with_home(snapshot.source_path.as_str(), home);
    let head = format_saved_prefix(profile_name, source.as_str());
    match session_profile_name {
        Some(current) => if text::str_eq(current, profile_name) {
            TargetProfileSaveFeedback {
                notice: text::concat2(head.as_str(), "current session already uses it"),
                pending_reconnect: false,
            }
        } else if live_reconnect_available {
            TargetProfileSaveFeedback {
                notice: text::concat4(
                    head.as_str(),
                    "current session still uses `",
                    current,
                    "`. Press R to reconnect now",
                ),
                pending_reconnect: true,
            }
        } else {
            TargetProfileSaveFeedback {
                notice: text::concat4(
                    head.as_str(),
                    "current session still uses `",
                    current,
                    "` until reconnect/restart",
                ),
                pending_reconnect: false,
            }
        },
        None => TargetProfileSaveFeedback {
            notice: text::concat2(head.as_str(), "reconnect/restart cue to apply"),
            pending_reconnect: false,
        },
    }
}

} // verus!
