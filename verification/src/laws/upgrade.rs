//! Upgrades: which release is taken, and which of its files.

use vstd::prelude::*;

use crate::text;
use crate::text::Text;
use crate::upgrade::{
    archive_name, asset_names, binaries, chosen_asset, leaf_binaries, needs_unpacking, planned,
    raw_name, url_of, version_of, DirItem, DirLeaf, GithubRelease, PlanModel,
};

verus! {

/// A version as it can stand in the name of a file.
pub open spec fn plain_version(v: Text) -> bool {
    &&& v.len() > 0
    &&& !text::is_white(v[0]) && !text::is_white(v[v.len() - 1])
    &&& !v.contains('/') && !v.contains('\\')
}

proof fn lemma_untouched_by_trim(s: Text)
    requires
        s.len() > 0,
    ensures
        text::trim(s) == s <==> !text::is_white(s[0]) && !text::is_white(s[s.len() - 1]),
{
    text::lemma_trim_start_len(s);
    text::lemma_trimmed_end(text::trim_start(s));
    if text::is_white(s[0]) {
        text::lemma_trim_start_len(s.drop_first());
        assert(text::trim_start(s).len() < s.len());
    } else {
        assert(text::trim_start(s) == s);
        if text::is_white(s[s.len() - 1]) {
            text::lemma_trimmed_end(s.drop_last());
            assert(text::trim_end(s) == text::trim_end(s.drop_last()));
        }
    }
}

/// A tag is a version, with or without a `v` in front, and names that version; a tag
/// that is empty, has white space at an end or a path separator names none.
pub proof fn lemma_tag_names_its_version(v: Text)
    ensures
        plain_version(v) && v[0] != 'v' ==> version_of(v) == Ok::<Text, Text>(v),
        plain_version(v) ==> version_of(seq!['v'] + v) == Ok::<Text, Text>(v),
        version_of(v) is Ok ==> plain_version(v) && (version_of(v)->Ok_0 == v || v == seq!['v']
            + version_of(v)->Ok_0),
{
    let tagged = seq!['v'] + v;
    if v.len() > 0 {
        lemma_untouched_by_trim(v);
    }
    lemma_untouched_by_trim(tagged);
    assert(tagged.skip(1) =~= v);
    assert(tagged[0] == 'v');
    if v.len() > 0 {
        assert(tagged[tagged.len() - 1] == v[v.len() - 1]);
    }
    if version_of(v) is Ok {
        let r = version_of(v)->Ok_0;
        if v[0] == 'v' {
            assert(v =~= seq!['v'] + r);
            assert forall|c: char| c != 'v' && v.contains(c) implies r.contains(c) by {
                let k = v.index_of(c);
                assert(r[k - 1] == c);
            }
        }
    }
}

/// An address from which a file can be taken.
pub open spec fn usable(url: Text) -> bool {
    &&& text::starts_with(url, "https://"@)
    &&& url.len() > 8
    &&& forall|i: int| 0 <= i < url.len() ==> !text::is_white(#[trigger] url[i])
}

/// An address is taken as it is, if it is usable, and refused otherwise.
pub proof fn lemma_address_taken_as_it_is(name: Text, url: Text)
    ensures
        usable(url) ==> url_of(name, url) == Ok::<Text, Text>(url),
        !usable(url) ==> url_of(name, url) is Err,
{
    reveal_strlit("https://");
    if usable(url) {
        assert(url.skip(8).len() > 0);
    }
}

/// The release has a file of this name at `i`, and none of that name before it.
pub open spec fn first_named(release: GithubRelease, name: Text, i: int) -> bool {
    &&& 0 <= i < release.assets@.len()
    &&& release.assets@[i].name@ == name
    &&& forall|j: int| 0 <= j < i ==> (#[trigger] release.assets@[j]).name@ != name
}

pub open spec fn has_named(release: GithubRelease, name: Text) -> bool {
    exists|i: int| 0 <= i < release.assets@.len() && (#[trigger] release.assets@[i]).name@ == name
}

proof fn lemma_index(v: Seq<Text>, s: Text)
    ensures
        match text::index_of_text(v, s) {
            Some(i) => 0 <= i < v.len() && v[i] == s && forall|j: int|
                0 <= j < i ==> #[trigger] v[j] != s,
            None => forall|j: int| 0 <= j < v.len() ==> #[trigger] v[j] != s,
        },
    decreases v.len(),
{
    if v.len() > 0 && v[0] != s {
        let rest = v.skip(1);
        lemma_index(rest, s);
        assert forall|j: int| 1 <= j < v.len() implies #[trigger] v[j] == rest[j - 1] by {}
    }
}

proof fn lemma_found(release: GithubRelease, name: Text)
    ensures
        match text::index_of_text(asset_names(release.assets@), name) {
            Some(i) => first_named(release, name, i),
            None => !has_named(release, name),
        },
{
    let names = asset_names(release.assets@);
    lemma_index(names, name);
    assert forall|j: int| 0 <= j < names.len() implies (#[trigger] release.assets@[j]).name@
        == names[j] by {}
}

/// The file that fits: the archive `cued-{version}-{os}-{arch}.tar.gz`, or if there is
/// none, the program `cued-{version}-{os}-{arch}`.
pub open spec fn fits(release: GithubRelease, version: Text, os: Text, arch: Text, i: int) -> bool {
    let program = "cued-"@ + version + "-"@ + os + "-"@ + arch;
    let archive = program + ".tar.gz"@;
    first_named(release, archive, i) || (!has_named(release, archive) && first_named(
        release,
        program,
        i,
    ))
}

/// Nothing is done just when the tag of the release names the version that runs. For
/// every other tag that names a version, the file that fits is downloaded, with its own
/// name and from its own address; the plan fails just when the tag names no version, no
/// file fits or its address cannot be used.
pub proof fn lemma_other_versions_are_downloaded(
    release: GithubRelease,
    current: Text,
    os: Text,
    arch: Text,
)
    ensures
        planned(release, current, os, arch) == Ok::<PlanModel, Text>(PlanModel::UpToDate)
            <==> version_of(release.tag_name@) == Ok::<Text, Text>(current),
        forall|i: int|
            version_of(release.tag_name@) is Ok && version_of(release.tag_name@)->Ok_0 != current
                && #[trigger] fits(release, version_of(release.tag_name@)->Ok_0, os, arch, i) ==> {
                let asset = release.assets@[i];
                if usable(asset.browser_download_url@) {
                    planned(release, current, os, arch) == Ok::<PlanModel, Text>(
                        PlanModel::Download {
                            name: asset.name@,
                            url: asset.browser_download_url@,
                        },
                    )
                } else {
                    planned(release, current, os, arch) is Err
                }
            },
        version_of(release.tag_name@) is Err ==> planned(release, current, os, arch) is Err,
        planned(release, current, os, arch) matches Ok(PlanModel::Download { name, url }) ==> exists|
            i: int,
        | #[trigger]
            fits(release, version_of(release.tag_name@)->Ok_0, os, arch, i) && name
                == release.assets@[i].name@ && url == release.assets@[i].browser_download_url@,
{
    if let Ok(latest) = version_of(release.tag_name@) {
        let program = "cued-"@ + latest + "-"@ + os + "-"@ + arch;
        let archive = program + ".tar.gz"@;
        assert(raw_name(latest, os, arch) == program);
        assert(archive_name(latest, os, arch) == archive);
        lemma_found(release, program);
        lemma_found(release, archive);
        let names = asset_names(release.assets@);
        match chosen_asset(names, latest, os, arch) {
            Some(k) => {
                let asset = release.assets@[k];
                assert(fits(release, latest, os, arch, k));
                lemma_address_taken_as_it_is(asset.name@, asset.browser_download_url@);
                assert forall|i: int| #[trigger] fits(release, latest, os, arch, i) implies i
                    == k by {
                    if has_named(release, archive) {
                        let j = choose|j: int|
                            0 <= j < release.assets@.len() && (#[trigger] release.assets@[j]).name@
                                == archive;
                        assert(first_named(release, archive, i));
                        assert(first_named(release, archive, k));
                    } else {
                        assert(!first_named(release, archive, i)) by {
                            if first_named(release, archive, i) {
                                assert(release.assets@[i].name@ == archive);
                            }
                        }
                        assert(!first_named(release, archive, k)) by {
                            if first_named(release, archive, k) {
                                assert(release.assets@[k].name@ == archive);
                            }
                        }
                    }
                    assert(i == k) by {
                        if i < k {
                            assert(release.assets@[i].name@ != release.assets@[k].name@);
                        } else if k < i {
                            assert(release.assets@[k].name@ != release.assets@[i].name@);
                        }
                    }
                }
            },
            None => {
                assert forall|i: int| #[trigger] fits(release, latest, os, arch, i) implies false by {
                    assert(has_named(release, release.assets@[i].name@));
                }
            },
        }
    }
}

/// What is downloaded under the name of an archive is unpacked, and a program is not.
pub proof fn lemma_archives_are_unpacked(stem: Text)
    ensures
        needs_unpacking(stem + ".tar.gz"@),
        needs_unpacking(stem + ".tgz"@),
        stem.len() > 0 && stem[stem.len() - 1] != 'z' ==> !needs_unpacking(stem),
{
    reveal_strlit(".tar.gz");
    reveal_strlit(".tgz");
    let a = stem + ".tar.gz"@;
    let b = stem + ".tgz"@;
    assert(a.subrange(a.len() - 7, a.len() as int) =~= ".tar.gz"@);
    assert(b.subrange(b.len() - 4, b.len() as int) =~= ".tgz"@);
    let n = stem.len() as int;
    if text::ends_with(stem, ".tar.gz"@) {
        assert(stem.subrange(n - 7, n)[6] == ".tar.gz"@[6]);
        assert(".tar.gz"@[6] == 'z');
    }
    if text::ends_with(stem, ".tgz"@) {
        assert(stem.subrange(n - 4, n)[3] == ".tgz"@[3]);
        assert(".tgz"@[3] == 'z');
    }
}

/// A file called `cued` in the directory, or one level down in it.
pub open spec fn holds_program(items: Seq<DirItem>, path: Text) -> bool {
    exists|i: int| 0 <= i < items.len() && #[trigger] item_holds(items[i], path)
}

pub open spec fn item_holds(item: DirItem, path: Text) -> bool {
    if item.name@ == "cued"@ && item.is_file {
        item.path@ == path
    } else {
        leaves_hold(item.inner@, path)
    }
}

pub open spec fn leaves_hold(inner: Seq<DirLeaf>, path: Text) -> bool {
    exists|j: int|
        0 <= j < inner.len() && (#[trigger] inner[j]).name@ == "cued"@ && inner[j].is_file
            && inner[j].path@ == path
}

proof fn lemma_leaves(inner: Seq<DirLeaf>, path: Text)
    ensures
        leaf_binaries(inner).contains(path) <==> leaves_hold(inner, path),
    decreases inner.len(),
{
    if inner.len() > 0 {
        let before = inner.drop_last();
        lemma_leaves(before, path);
        let found = leaf_binaries(before);
        let all = leaf_binaries(inner);
        if leaves_hold(before, path) {
            let j = choose|j: int|
                0 <= j < before.len() && (#[trigger] before[j]).name@ == "cued"@
                    && before[j].is_file && before[j].path@ == path;
            assert(inner[j] == before[j]);
            let k = found.index_of(path);
            assert(all[k] == path);
        }
        if leaves_hold(inner, path) && !leaves_hold(before, path) {
            let j = choose|j: int|
                0 <= j < inner.len() && (#[trigger] inner[j]).name@ == "cued"@ && inner[j].is_file
                    && inner[j].path@ == path;
            if j < before.len() {
                assert(before[j] == inner[j]);
            }
            assert(all[all.len() - 1] == path);
        }
        if all.contains(path) {
            let k = all.index_of(path);
            if k < found.len() {
                assert(found[k] == path);
            } else {
                assert(inner[inner.len() - 1].path@ == path);
            }
        }
    }
}

/// The programs that are found are just the files called `cued` in the directory and
/// one level down.
pub proof fn lemma_programs_found(items: Seq<DirItem>, path: Text)
    ensures
        binaries(items).contains(path) <==> holds_program(items, path),
    decreases items.len(),
{
    if items.len() > 0 {
        let before = items.drop_last();
        let last = items[items.len() - 1];
        lemma_programs_found(before, path);
        lemma_leaves(last.inner@, path);
        let found = binaries(before);
        let all = binaries(items);
        let leaves = leaf_binaries(last.inner@);
        if holds_program(before, path) {
            let i = choose|i: int| 0 <= i < before.len() && #[trigger] item_holds(before[i], path);
            assert(item_holds(items[i], path));
            let k = found.index_of(path);
            assert(all[k] == path);
        }
        if item_holds(last, path) {
            assert(item_holds(items[items.len() - 1], path));
            if last.name@ == "cued"@ && last.is_file {
                assert(all[all.len() - 1] == path);
            } else {
                let k = leaves.index_of(path);
                assert(all[found.len() + k] == path);
            }
        }
        if holds_program(items, path) && !holds_program(before, path) {
            let i = choose|i: int| 0 <= i < items.len() && #[trigger] item_holds(items[i], path);
            if i < before.len() {
                assert(item_holds(before[i], path));
            }
        }
        if all.contains(path) {
            let k = all.index_of(path);
            if k < found.len() {
                assert(found[k] == path);
            } else if !(last.name@ == "cued"@ && last.is_file) {
                assert(leaves[k - found.len()] == path);
            }
        }
    }
}

} // verus!
