//! Self-update: which release asset to take and what to do with it.
//!
//! Assets are named `cued-{version}-{os}-{arch}.tar.gz` (preferred) or
//! `cued-{version}-{os}-{arch}`, where `{os}` is `macos` or `linux` and
//! `{arch}` is `aarch64` or `x86_64`.

use vstd::prelude::*;
use vstd::string::*;

use crate::runtime_env::{path_model};
use crate::text;
use crate::text::Text;
use crate::textmap::{str_lt, text_lt};

verus! {

/// A release and its files.
#[derive(Debug)]
pub struct GithubRelease {
    pub tag_name: String,
    pub assets: Vec<GithubAsset>,
}

/// A file of a release.
#[derive(Debug)]
pub struct GithubAsset {
    pub name: String,
    pub browser_download_url: String,
}

/// Whether `c` occurs in `s`.
pub fn has_char(s: &Vec<char>, c: char) -> (r: bool)
    ensures
        r == s@.contains(c),
{
    let i = text::find_char(s, 0, c);
    proof {
        lemma_found(s@, 0, c);
        if i < s@.len() {
            assert(s@[i as int] == c);
        }
    }
    i < s.len()
}

proof fn lemma_found(s: Text, i: int, c: char)
    requires
        0 <= i <= s.len(),
    ensures
        text::find_from(s, i, c) < s.len() ==> s[text::find_from(s, i, c)] == c,
        text::find_from(s, i, c) == s.len() ==> forall|j: int| i <= j < s.len() ==> s[j] != c,
    decreases s.len() - i,
{
    text::lemma_find_from(s, i, c);
    if i < s.len() && s[i] != c {
        lemma_found(s, i + 1, c);
    }
}

// ── Tags ──

/// The version that a tag names.
pub open spec fn tag_version(tag: Text) -> Text {
    if tag.len() > 0 && tag[0] == 'v' {
        tag.skip(1)
    } else {
        tag
    }
}

/// The version of the assets of a release with this tag.
pub open spec fn version_of(tag: Text) -> Result<Text, Text> {
    if tag.len() == 0 {
        Err("GitHub release tag must not be empty"@)
    } else if text::trim(tag) != tag {
        Err(
            "GitHub release tag `"@ + tag + "` must not have leading or trailing whitespace"@,
        )
    } else if tag_version(tag).len() == 0 {
        Err("GitHub release tag `"@ + tag + "` does not contain a version"@)
    } else if tag_version(tag).contains('/') || tag_version(tag).contains('\\') {
        Err("GitHub release tag `"@ + tag + "` must not contain path separators"@)
    } else {
        Ok(tag_version(tag))
    }
}

pub open spec fn text_result(r: Result<String, String>) -> Result<Text, Text> {
    match r {
        Ok(s) => Ok(s@),
        Err(e) => Err(e@),
    }
}

pub fn release_asset_version_from_tag(tag: &str) -> (r: Result<String, String>)
    ensures
        text_result(r) == version_of(tag@),
{
    let chars = text::chars_of(tag);
    if chars.len() == 0 {
        return Err("GitHub release tag must not be empty".to_owned());
    }
    let trimmed = text::chars_trim(&chars);
    if !text::chars_eq(&trimmed, &chars) {
        return Err(
            text::concat3(
                "GitHub release tag `",
                tag,
                "` must not have leading or trailing whitespace",
            ),
        );
    }
    let version = if chars[0] == 'v' {
        let v = text::sub_chars(&chars, 1, chars.len());
        assert(v@ =~= tag@.skip(1));
        v
    } else {
        chars
    };
    if version.len() == 0 {
        return Err(
            text::concat3("GitHub release tag `", tag, "` does not contain a version"),
        );
    }
    if has_char(&version, '/') || has_char(&version, '\\') {
        return Err(
            text::concat3("GitHub release tag `", tag, "` must not contain path separators"),
        );
    }
    Ok(text::all_string(&version))
}

// ── Assets ──

/// The name of a raw binary.
pub open spec fn raw_name(version: Text, os: Text, arch: Text) -> Text {
    "cued-"@ + version + "-"@ + os + "-"@ + arch
}

/// The name of an archive.
pub open spec fn archive_name(version: Text, os: Text, arch: Text) -> Text {
    raw_name(version, os, arch) + ".tar.gz"@
}

pub open spec fn asset_names(assets: Seq<GithubAsset>) -> Seq<Text> {
    assets.map_values(|a: GithubAsset| a.name@)
}

/// Strings as a debug listing shows them.
pub open spec fn debug_list(names: Seq<Text>) -> Text {
    "["@ + text::join(names.map_values(|n: Text| text::debug_text(n)), ", "@) + "]"@
}

/// The message for a release without a fitting asset.
pub open spec fn no_asset_error(
    release: GithubRelease,
    version: Text,
    os: Text,
    arch: Text,
) -> Text {
    "no versioned asset found for "@ + os + "-"@ + arch + " in release "@ + release.tag_name@
        + "\nexpected one of: "@ + debug_list(
        seq![archive_name(version, os, arch), raw_name(version, os, arch)],
    ) + "\navailable assets: "@ + debug_list(asset_names(release.assets@))
}

/// The asset to take: the archive before the raw binary, the first with the
/// name.
pub open spec fn chosen_asset(names: Seq<Text>, version: Text, os: Text, arch: Text) -> Option<int> {
    match text::index_of_text(names, archive_name(version, os, arch)) {
        Some(i) => Some(i),
        None => text::index_of_text(names, raw_name(version, os, arch)),
    }
}

fn find_asset(assets: &Vec<GithubAsset>, name: &str) -> (r: Option<usize>)
    ensures
        match r {
            Some(i) => i < assets@.len() && text::index_of_text(asset_names(assets@), name@) == Some(
                i as int,
            ),
            None => text::index_of_text(asset_names(assets@), name@) is None,
        },
{
    let ghost names = asset_names(assets@);
    let mut i: usize = 0;
    while i < assets.len()
        invariant
            i <= assets@.len(),
            names == asset_names(assets@),
            forall|j: int| 0 <= j < i ==> #[trigger] names[j] != name@,
        decreases assets@.len() - i,
    {
        assert(names[i as int] == assets@[i as int].name@);
        if text::str_eq(assets[i].name.as_str(), name) {
            proof {
                lemma_index_of_text(names, name@, i as int);
            }
            return Some(i);
        }
        i = i + 1;
    }
    proof {
        lemma_no_index_of_text(names, name@);
    }
    None
}

proof fn lemma_index_of_text(v: Seq<Text>, s: Text, i: int)
    requires
        0 <= i < v.len(),
        v[i] == s,
        forall|j: int| 0 <= j < i ==> #[trigger] v[j] != s,
    ensures
        text::index_of_text(v, s) == Some(i),
    decreases v.len(),
{
    if i > 0 {
        assert(v[0] != s);
        assert(v.skip(1)[i - 1] == s);
        assert forall|j: int| 0 <= j < i - 1 implies #[trigger] v.skip(1)[j] != s by {
            assert(v[j + 1] != s);
        }
        lemma_index_of_text(v.skip(1), s, i - 1);
    }
}

proof fn lemma_no_index_of_text(v: Seq<Text>, s: Text)
    requires
        forall|j: int| 0 <= j < v.len() ==> #[trigger] v[j] != s,
    ensures
        text::index_of_text(v, s) is None,
    decreases v.len(),
{
    if v.len() > 0 {
        assert(v[0] != s);
        assert forall|j: int| 0 <= j < v.skip(1).len() implies #[trigger] v.skip(1)[j] != s by {
            assert(v[j + 1] != s);
        }
        lemma_no_index_of_text(v.skip(1), s);
    }
}

fn format_list(names: &Vec<String>) -> (r: String)
    ensures
        r@ == debug_list(text::texts(names@)),
{
    let ghost want = text::texts(names@).map_values(|n: Text| text::debug_text(n));
    let mut shown: Vec<String> = Vec::new();
    let mut i: usize = 0;
    assert(text::texts(shown@) =~= want.take(0));
    while i < names.len()
        invariant
            i <= names@.len(),
            want == text::texts(names@).map_values(|n: Text| text::debug_text(n)),
            text::texts(shown@) == want.take(i as int),
        decreases names@.len() - i,
    {
        let d = text::debug_str(names[i].as_str());
        proof {
            assert(text::texts(shown@.push(d)) =~= text::texts(shown@).push(d@));
            assert(want.take(i + 1) =~= want.take(i as int).push(d@));
        }
        shown.push(d);
        i = i + 1;
    }
    assert(want.take(i as int) =~= want);
    text::concat3("[", text::join_strings(&shown, ", ").as_str(), "]")
}

fn names_of(assets: &Vec<GithubAsset>) -> (r: Vec<String>)
    ensures
        text::texts(r@) == asset_names(assets@),
{
    let ghost want = asset_names(assets@);
    let mut out: Vec<String> = Vec::new();
    let mut i: usize = 0;
    assert(text::texts(out@) =~= want.take(0));
    while i < assets.len()
        invariant
            i <= assets@.len(),
            want == asset_names(assets@),
            text::texts(out@) == want.take(i as int),
        decreases assets@.len() - i,
    {
        let n = assets[i].name.clone();
        proof {
            assert(text::texts(out@.push(n)) =~= text::texts(out@).push(n@));
            assert(want.take(i + 1) =~= want.take(i as int).push(n@));
        }
        out.push(n);
        i = i + 1;
    }
    assert(want.take(i as int) =~= want);
    out
}

pub fn select_release_asset<'a>(
    release: &'a GithubRelease,
    version: &str,
    os: &str,
    arch: &str,
) -> (r: Result<&'a GithubAsset, String>)
    ensures
        match r {
            Ok(asset) => chosen_asset(asset_names(release.assets@), version@, os@, arch@)
                matches Some(i) && 0 <= i < release.assets@.len() && *asset == release.assets@[i],
            Err(e) => chosen_asset(asset_names(release.assets@), version@, os@, arch@) is None
                && e@ == no_asset_error(*release, version@, os@, arch@),
        },
{
    let mut raw = text::concat5("cued-", version, "-", os, "-");
    raw.append(arch);
    let archive = text::concat2(raw.as_str(), ".tar.gz");
    if let Some(i) = find_asset(&release.assets, archive.as_str()) {
        return Ok(&release.assets[i]);
    }
    if let Some(i) = find_asset(&release.assets, raw.as_str()) {
        return Ok(&release.assets[i]);
    }
    let expected = text::texts2(archive, raw);
    let mut message = text::concat5("no versioned asset found for ", os, "-", arch, " in release ");
    message.append(release.tag_name.as_str());
    message.append("\nexpected one of: ");
    message.append(format_list(&expected).as_str());
    message.append("\navailable assets: ");
    message.append(format_list(&names_of(&release.assets)).as_str());
    Err(message)
}

/// The URL of an asset, if it can be used.
pub open spec fn url_of(name: Text, url: Text) -> Result<Text, Text> {
    let what = "download URL for release asset `"@ + name;
    if url.len() == 0 {
        Err(what + "` must not be empty"@)
    } else if exists|i: int| 0 <= i < url.len() && text::is_white(#[trigger] url[i]) {
        Err(what + "` must not contain whitespace"@)
    } else {
        match text::strip_prefix(url, "https://"@) {
            None => Err(what + "` must use https://"@),
            Some(rest) => if rest.len() == 0 {
                Err(what + "` must include a host"@)
            } else {
                Ok(url)
            },
        }
    }
}

fn has_whitespace(v: &Vec<char>) -> (r: bool)
    ensures
        r == exists|i: int| 0 <= i < v@.len() && text::is_white(#[trigger] v@[i]),
{
    let mut i: usize = 0;
    while i < v.len()
        invariant
            i <= v@.len(),
            forall|j: int| 0 <= j < i ==> !text::is_white(#[trigger] v@[j]),
        decreases v@.len() - i,
    {
        if text::is_whitespace(v[i]) {
            return true;
        }
        i = i + 1;
    }
    false
}

pub fn release_asset_download_url(asset: &GithubAsset) -> (r: Result<String, String>)
    ensures
        text_result(r) == url_of(asset.name@, asset.browser_download_url@),
{
    let url = asset.browser_download_url.as_str();
    let name = asset.name.as_str();
    let chars = text::chars_of(url);
    if chars.len() == 0 {
        return Err(
            text::concat3("download URL for release asset `", name, "` must not be empty"),
        );
    }
    if has_whitespace(&chars) {
        return Err(
            text::concat3("download URL for release asset `", name, "` must not contain whitespace"),
        );
    }
    match text::chars_strip_prefix(&chars, "https://") {
        None => Err(text::concat3("download URL for release asset `", name, "` must use https://")),
        Some(rest) => if rest.len() == 0 {
            Err(text::concat3("download URL for release asset `", name, "` must include a host"))
        } else {
            Ok(url.to_owned())
        },
    }
}

// ── Upgrade ──

/// What to do about a release.
#[derive(Debug)]
pub enum UpgradePlan {
    /// The version is the one that runs.
    UpToDate,
    /// Download `url`, store it as `name`.
    Download { name: String, url: String },
}

/// A plan over character sequences.
pub enum PlanModel {
    UpToDate,
    Download { name: Text, url: Text },
}

impl View for UpgradePlan {
    type V = PlanModel;

    open spec fn view(&self) -> PlanModel {
        match self {
            UpgradePlan::UpToDate => PlanModel::UpToDate,
            UpgradePlan::Download { name, url } => PlanModel::Download { name: name@, url: url@ },
        }
    }
}

/// Refuses a platform for which there are no assets.
pub fn check_platform(os: &str, arch: &str) -> (r: Result<(), String>)
    ensures
        match r {
            Ok(_) => os@ != "unknown"@ && arch@ != "unknown"@,
            Err(e) => (os@ == "unknown"@ || arch@ == "unknown"@) && e@
                == "upgrade is not supported on this platform (os="@ + os@ + ", arch="@ + arch@
                + ")"@,
        },
{
    if text::str_eq(os, "unknown") || text::str_eq(arch, "unknown") {
        Err(
            text::concat5(
                "upgrade is not supported on this platform (os=",
                os,
                ", arch=",
                arch,
                ")",
            ),
        )
    } else {
        Ok(())
    }
}

pub open spec fn planned(release: GithubRelease, current: Text, os: Text, arch: Text) -> Result<
    PlanModel,
    Text,
> {
    match version_of(release.tag_name@) {
        Err(e) => Err(e),
        Ok(latest) => if latest == current {
            Ok(PlanModel::UpToDate)
        } else {
            match chosen_asset(asset_names(release.assets@), latest, os, arch) {
                None => Err(no_asset_error(release, latest, os, arch)),
                Some(i) => {
                    let asset = release.assets@[i];
                    match url_of(asset.name@, asset.browser_download_url@) {
                        Err(e) => Err(e),
                        Ok(url) => Ok(PlanModel::Download { name: asset.name@, url }),
                    }
                },
            }
        },
    }
}

/// Decides what to do about the latest release.
pub fn plan_upgrade(release: &GithubRelease, current: &str, os: &str, arch: &str) -> (r: Result<
    UpgradePlan,
    String,
>)
    ensures
        match r {
            Ok(p) => planned(*release, current@, os@, arch@) == Ok::<PlanModel, Text>(p@),
            Err(e) => planned(*release, current@, os@, arch@) == Err::<PlanModel, Text>(e@),
        },
{
    let latest = match release_asset_version_from_tag(release.tag_name.as_str()) {
        Ok(v) => v,
        Err(e) => {
            return Err(e);
        },
    };
    if text::str_eq(latest.as_str(), current) {
        return Ok(UpgradePlan::UpToDate);
    }
    let asset = match select_release_asset(release, latest.as_str(), os, arch) {
        Ok(a) => a,
        Err(e) => {
            return Err(e);
        },
    };
    match release_asset_download_url(asset) {
        Ok(url) => Ok(UpgradePlan::Download { name: asset.name.clone(), url }),
        Err(e) => Err(e),
    }
}

/// Whether an asset has to be unpacked.
pub open spec fn needs_unpacking(name: Text) -> bool {
    text::ends_with(name, ".tar.gz"@) || text::ends_with(name, ".tgz"@)
}

pub fn is_archive(name: &str) -> (r: bool)
    ensures
        r == needs_unpacking(name@),
{
    let chars = text::chars_of(name);
    text::chars_end_with(&chars, ".tar.gz") || text::chars_end_with(&chars, ".tgz")
}

// ── The unpacked binary ──

/// What a directory holds: a name, and whether it is a file.
#[derive(Debug)]
pub struct DirItem {
    pub path: String,
    pub name: String,
    pub is_file: bool,
    /// The contents, if it is a directory.
    pub inner: Vec<DirLeaf>,
}

/// What a directory one level down holds.
#[derive(Debug)]
pub struct DirLeaf {
    pub path: String,
    pub name: String,
    pub is_file: bool,
}

/// The binaries among the contents of a directory one level down.
pub open spec fn leaf_binaries(inner: Seq<DirLeaf>) -> Seq<Text>
    decreases inner.len(),
{
    if inner.len() == 0 {
        Seq::empty()
    } else {
        let before = leaf_binaries(inner.drop_last());
        if inner.last().name@ == "cued"@ && inner.last().is_file {
            before.push(inner.last().path@)
        } else {
            before
        }
    }
}

/// The binaries in a directory and one level down.
pub open spec fn binaries(items: Seq<DirItem>) -> Seq<Text>
    decreases items.len(),
{
    if items.len() == 0 {
        Seq::empty()
    } else {
        let before = binaries(items.drop_last());
        let item = items.last();
        if item.name@ == "cued"@ && item.is_file {
            before.push(item.path@)
        } else {
            before + leaf_binaries(item.inner@)
        }
    }
}

/// Paths in the order of their parts.
pub open spec fn parts_lt(a: Seq<Text>, b: Seq<Text>) -> bool
    decreases a.len(),
{
    if b.len() == 0 {
        false
    } else if a.len() == 0 {
        true
    } else if a[0] == b[0] {
        parts_lt(a.drop_first(), b.drop_first())
    } else {
        text_lt(a[0], b[0])
    }
}

pub open spec fn path_lt(a: Text, b: Text) -> bool {
    parts_lt(path_model(a).parts, path_model(b).parts)
}

pub open spec fn insert_path(s: Seq<Text>, x: Text) -> Seq<Text>
    decreases s.len(),
{
    if s.len() == 0 || !path_lt(x, s.last()) {
        s.push(x)
    } else {
        insert_path(s.drop_last(), x).push(s.last())
    }
}

/// The paths in ascending order.
pub open spec fn sorted_paths(s: Seq<Text>) -> Seq<Text>
    decreases s.len(),
{
    if s.len() == 0 {
        Seq::empty()
    } else {
        insert_path(sorted_paths(s.drop_last()), s.last())
    }
}

fn is_path_lt(a: &str, b: &str) -> (r: bool)
    ensures
        r == path_lt(a@, b@),
{
    let pa = crate::runtime_env::path_parts(a).1;
    let pb = crate::runtime_env::path_parts(b).1;
    let ghost ta = text::texts(pa@);
    let ghost tb = text::texts(pb@);
    let mut i: usize = 0;
    assert(ta.skip(0) =~= ta);
    assert(tb.skip(0) =~= tb);
    loop
        invariant
            i <= pa@.len(),
            i <= pb@.len(),
            ta == text::texts(pa@),
            tb == text::texts(pb@),
            parts_lt(ta, tb) == parts_lt(ta.skip(i as int), tb.skip(i as int)),
            ta == path_model(a@).parts,
            tb == path_model(b@).parts,
        decreases pa@.len() - i,
    {
        if i == pb.len() {
            return false;
        }
        if i == pa.len() {
            return true;
        }
        proof {
            assert(ta.skip(i as int)[0] == pa@[i as int]@);
            assert(tb.skip(i as int)[0] == pb@[i as int]@);
            assert(ta.skip(i as int).drop_first() =~= ta.skip(i + 1));
            assert(tb.skip(i as int).drop_first() =~= tb.skip(i + 1));
        }
        if !text::str_eq(pa[i].as_str(), pb[i].as_str()) {
            return str_lt(pa[i].as_str(), pb[i].as_str());
        }
        i = i + 1;
    }
}

fn sort_paths(v: &Vec<String>) -> (r: Vec<String>)
    ensures
        text::texts(r@) == sorted_paths(text::texts(v@)),
{
    let ghost all = text::texts(v@);
    let mut out: Vec<String> = Vec::new();
    let mut i: usize = 0;
    assert(text::texts(out@) =~= sorted_paths(all.take(0)));
    while i < v.len()
        invariant
            i <= v@.len(),
            all == text::texts(v@),
            text::texts(out@) == sorted_paths(all.take(i as int)),
        decreases v@.len() - i,
    {
        let x = v[i].clone();
        let ghost before = text::texts(out@);
        let ghost held = out@;
        let mut at: usize = out.len();
        proof {
            assert(before.take(at as int) =~= before);
            assert(before.skip(at as int) =~= Seq::<Text>::empty());
            assert(insert_path(before, x@) =~= insert_path(before.take(at as int), x@)
                + before.skip(at as int));
        }
        while at > 0 && is_path_lt(x.as_str(), out[at - 1].as_str())
            invariant
                at <= out@.len(),
                out@ == held,
                before == text::texts(held),
                insert_path(before, x@) == insert_path(before.take(at as int), x@) + before.skip(
                    at as int,
                ),
            decreases at,
        {
            proof {
                assert(before.take(at as int).drop_last() =~= before.take(at - 1));
                assert(before.take(at as int).last() == out@[at - 1]@);
                assert(insert_path(before.take(at - 1), x@).push(before[at - 1]) + before.skip(
                    at as int,
                ) =~= insert_path(before.take(at - 1), x@) + before.skip(at - 1));
            }
            at = at - 1;
        }
        let ghost shown = x@;
        proof {
            if at > 0 {
                assert(before.take(at as int).last() == out@[at - 1]@);
            }
        }
        out.insert(at, x);
        proof {
            assert(text::texts(out@) =~= before.take(at as int).push(shown) + before.skip(at as int));
            assert(all.take(i + 1).drop_last() =~= all.take(i as int));
        }
        i = i + 1;
    }
    assert(all.take(i as int) =~= all);
    out
}

fn find_leaves(inner: &Vec<DirLeaf>, out: &mut Vec<String>)
    ensures
        text::texts(final(out)@) == text::texts(old(out)@) + leaf_binaries(inner@),
{
    let ghost start = text::texts(out@);
    let mut i: usize = 0;
    assert(inner@.take(0) =~= Seq::<DirLeaf>::empty());
    assert(text::texts(out@) =~= start + leaf_binaries(inner@.take(0)));
    while i < inner.len()
        invariant
            i <= inner@.len(),
            text::texts(out@) == start + leaf_binaries(inner@.take(i as int)),
            start == text::texts(old(out)@),
        decreases inner@.len() - i,
    {
        let leaf = &inner[i];
        proof {
            assert(inner@.take(i + 1).drop_last() =~= inner@.take(i as int));
        }
        if text::str_eq(leaf.name.as_str(), "cued") && leaf.is_file {
            let p = leaf.path.clone();
            proof {
                assert(text::texts(out@.push(p)) =~= text::texts(out@).push(p@));
            }
            out.push(p);
        }
        assert(text::texts(out@) =~= start + leaf_binaries(inner@.take(i + 1)));
        i = i + 1;
    }
    assert(inner@.take(i as int) =~= inner@);
}

fn find_binaries(items: &Vec<DirItem>) -> (r: Vec<String>)
    ensures
        text::texts(r@) == binaries(items@),
{
    let mut out: Vec<String> = Vec::new();
    let mut i: usize = 0;
    assert(items@.take(0) =~= Seq::<DirItem>::empty());
    assert(text::texts(out@) =~= binaries(items@.take(0)));
    while i < items.len()
        invariant
            i <= items@.len(),
            text::texts(out@) == binaries(items@.take(i as int)),
        decreases items@.len() - i,
    {
        let item = &items[i];
        proof {
            assert(items@.take(i + 1).drop_last() =~= items@.take(i as int));
        }
        if text::str_eq(item.name.as_str(), "cued") && item.is_file {
            let p = item.path.clone();
            proof {
                assert(text::texts(out@.push(p)) =~= text::texts(out@).push(p@));
            }
            out.push(p);
        } else {
            find_leaves(&item.inner, &mut out);
        }
        i = i + 1;
    }
    assert(items@.take(i as int) =~= items@);
    out
}

/// The one binary in the directory `dir` and one level down.
pub fn find_binary_in_dir(dir: &str, items: &Vec<DirItem>) -> (r: Result<String, String>)
    ensures
        match r {
            Ok(path) => binaries(items@) == seq![path@],
            Err(e) => binaries(items@).len() != 1 && e@ == if binaries(items@).len() == 0 {
                "could not find `cued` binary after extraction in "@ + dir@
            } else {
                "multiple `cued` binaries found after extraction in "@ + dir@ + ": "@ + debug_list(
                    sorted_paths(binaries(items@)),
                )
            },
        },
{
    let mut found = find_binaries(items);
    if found.len() == 1 {
        let ghost all = text::texts(found@);
        let path = found.remove(0);
        assert(all[0] == path@);
        assert(all =~= seq![path@]);
        Ok(path)
    } else if found.len() == 0 {
        Err(text::concat2("could not find `cued` binary after extraction in ", dir))
    } else {
        let sorted = sort_paths(&found);
        Err(
            text::concat4(
                "multiple `cued` binaries found after extraction in ",
                dir,
                ": ",
                format_list(&sorted).as_str(),
            ),
        )
    }
}

} // verus!
