//! Target profiles as they are configured.

use vstd::prelude::*;
use vstd::string::*;

use crate::text;
use crate::text::Text;
use crate::paths::{path_after, path_strip_prefix};

verus! {

/// How a target is reached.
#[derive(Debug, PartialEq, Eq)]
pub enum TargetProfileKind {
    Unix,
    Ssh,
    /// Referred to but not defined.
    Missing,
    Invalid,
    /// A transport of this name, which is not known.
    Unsupported(String),
}

/// Where a profile comes from.
#[derive(Debug, Clone, Copy, PartialEq, Eq, Structural)]
pub enum TargetProfileSource {
    Local,
    Configured,
    AutoDetectedSsh,
    Missing,
}

#[derive(Debug, PartialEq, Eq)]
pub struct TargetProfileSummary {
    pub name: String,
    pub transport: TargetProfileKind,
    pub detail: String,
    pub source: TargetProfileSource,
}

/// The profiles at one time.
#[derive(Debug, PartialEq, Eq)]
pub struct TargetSettingsSnapshot {
    pub source_path: String,
    pub using_legacy_config: bool,
    pub auto_detect_ssh: bool,
    pub default_profile: String,
    pub profiles: Vec<TargetProfileSummary>,
}

/// How a target is reached, over character sequences.
pub enum KindModel {
    Unix,
    Ssh,
    Missing,
    Invalid,
    Unsupported(Text),
}

pub struct ProfileModel {
    pub name: Text,
    pub transport: KindModel,
    pub detail: Text,
    pub source: TargetProfileSource,
}

pub struct SnapshotModel {
    pub source_path: Text,
    pub using_legacy_config: bool,
    pub auto_detect_ssh: bool,
    pub default_profile: Text,
    pub profiles: Seq<ProfileModel>,
}

impl View for TargetProfileKind {
    type V = KindModel;

    open spec fn view(&self) -> KindModel {
        match self {
            TargetProfileKind::Unix => KindModel::Unix,
            TargetProfileKind::Ssh => KindModel::Ssh,
            TargetProfileKind::Missing => KindModel::Missing,
            TargetProfileKind::Invalid => KindModel::Invalid,
            TargetProfileKind::Unsupported(name) => KindModel::Unsupported(name@),
        }
    }
}

impl View for TargetProfileSummary {
    type V = ProfileModel;

    open spec fn view(&self) -> ProfileModel {
        ProfileModel {
            name: self.name@,
            transport: self.transport@,
            detail: self.detail@,
            source: self.source,
        }
    }
}

pub open spec fn profile_models(v: Seq<TargetProfileSummary>) -> Seq<ProfileModel> {
    v.map_values(|p: TargetProfileSummary| p@)
}

impl View for TargetSettingsSnapshot {
    type V = SnapshotModel;

    open spec fn view(&self) -> SnapshotModel {
        SnapshotModel {
            source_path: self.source_path@,
            using_legacy_config: self.using_legacy_config,
            auto_detect_ssh: self.auto_detect_ssh,
            default_profile: self.default_profile@,
            profiles: profile_models(self.profiles@),
        }
    }
}

impl KindModel {
    pub open spec fn name(self) -> Text {
        match self {
            KindModel::Unix => "unix"@,
            KindModel::Ssh => "ssh"@,
            KindModel::Missing => "missing"@,
            KindModel::Invalid => "invalid"@,
            KindModel::Unsupported(name) => name,
        }
    }
}

impl TargetProfileKind {
    pub fn text(&self) -> (r: &str)
        ensures
            r@ == self@.name(),
    {
        match self {
            TargetProfileKind::Unix => "unix",
            TargetProfileKind::Ssh => "ssh",
            TargetProfileKind::Missing => "missing",
            TargetProfileKind::Invalid => "invalid",
            TargetProfileKind::Unsupported(name) => name.as_str(),
        }
    }
}

impl Clone for TargetProfileKind {
    fn clone(&self) -> (r: TargetProfileKind)
        ensures
            r@ == self@,
    {
        match self {
            TargetProfileKind::Unix => TargetProfileKind::Unix,
            TargetProfileKind::Ssh => TargetProfileKind::Ssh,
            TargetProfileKind::Missing => TargetProfileKind::Missing,
            TargetProfileKind::Invalid => TargetProfileKind::Invalid,
            TargetProfileKind::Unsupported(name) => TargetProfileKind::Unsupported(name.clone()),
        }
    }
}

impl Clone for TargetProfileSummary {
    fn clone(&self) -> (r: TargetProfileSummary)
        ensures
            r@ == self@,
    {
        TargetProfileSummary {
            name: self.name.clone(),
            transport: self.transport.clone(),
            detail: self.detail.clone(),
            source: self.source,
        }
    }
}

impl Clone for TargetSettingsSnapshot {
    fn clone(&self) -> (r: TargetSettingsSnapshot)
        ensures
            r@ == self@,
    {
        let mut profiles: Vec<TargetProfileSummary> = Vec::new();
        let mut i: usize = 0;
        assert(profile_models(profiles@) =~= self@.profiles.take(0));
        while i < self.profiles.len()
            invariant
                i <= self.profiles@.len(),
                profile_models(profiles@) == self@.profiles.take(i as int),
            decreases self.profiles@.len() - i,
        {
            let ghost before = profiles@;
            profiles.push(self.profiles[i].clone());
            proof {
                assert(profile_models(profiles@) =~= profile_models(before).push(
                    self.profiles@[i as int]@,
                ));
                assert(self@.profiles.take(i + 1) =~= self@.profiles.take(i as int).push(
                    self@.profiles[i as int],
                ));
            }
            i = i + 1;
        }
        assert(self@.profiles.take(i as int) =~= self@.profiles);
        TargetSettingsSnapshot {
            source_path: self.source_path.clone(),
            using_legacy_config: self.using_legacy_config,
            auto_detect_ssh: self.auto_detect_ssh,
            default_profile: self.default_profile.clone(),
            profiles,
        }
    }
}

// ── Usable targets ──

impl ProfileModel {
    pub open spec fn usable(self) -> bool {
        self.transport is Unix || self.transport is Ssh
    }
}

impl TargetProfileSummary {
    /// Whether the target can be connected to.
    pub fn is_usable_target(&self) -> (r: bool)
        ensures
            r == self@.usable(),
    {
        match &self.transport {
            TargetProfileKind::Unix => true,
            TargetProfileKind::Ssh => true,
            _ => false,
        }
    }
}

// ── Paths ──

/// A home directory, unless it is empty.
pub fn home_path_from_env(home: Option<String>) -> (r: Option<String>)
    ensures
        text::opt_text(r) == match text::opt_text(home) {
            Some(h) => if h.len() > 0 {
                Some(h)
            } else {
                None
            },
            None => None,
        },
{
    match home {
        Some(h) => if h.as_str().unicode_len() > 0 {
            Some(h)
        } else {
            None
        },
        None => None,
    }
}

/// A path as it is shown: with `~` for the home directory.
pub open spec fn shown_path(path: Text, home: Option<Text>) -> Text {
    match home {
        Some(h) => match path_after(path, h) {
            Some(rest) => if rest.len() == 0 {
                "~"@
            } else {
                "~/"@ + rest
            },
            None => path,
        },
        None => path,
    }
}

pub fn display_path_with_home(path: &str, home: Option<&str>) -> (r: String)
    ensures
        r@ == shown_path(path@, text::opt_str(home)),
{
    if let Some(h) = home {
        if let Some(rest) = path_strip_prefix(path, h) {
            if rest.as_str().unicode_len() == 0 {
                return "~".to_owned();
            }
            return text::concat2("~/", rest.as_str());
        }
    }
    path.to_owned()
}

} // verus!
