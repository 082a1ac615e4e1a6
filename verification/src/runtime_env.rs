//! Environment in which jobs run: a saved snapshot brought up to date with the
//! environment around the daemon.

use vstd::prelude::*;
use vstd::string::*;

use crate::text;
use crate::text::Text;
use crate::textmap::TextMap;

verus! {

/// Environment variables and a working directory.
#[derive(Debug)]
pub struct EnvSnapshot {
    pub env: TextMap<String>,
    pub cwd: String,
}

/// Variables that describe the session and are always taken from around the
/// daemon.
pub open spec fn is_override_key(key: Text) -> bool {
    ||| key == "COLORTERM"@
    ||| key == "DBUS_SESSION_BUS_ADDRESS"@
    ||| key == "DISPLAY"@
    ||| key == "GH_TOKEN"@
    ||| key == "GITHUB_TOKEN"@
    ||| key == "GPG_AGENT_INFO"@
    ||| key == "GPG_TTY"@
    ||| key == "SSH_AGENT_PID"@
    ||| key == "SSH_AUTH_SOCK"@
    ||| key == "TERM"@
    ||| key == "TERM_PROGRAM"@
    ||| key == "TMPDIR"@
    ||| key == "WAYLAND_DISPLAY"@
    ||| key == "XAUTHORITY"@
}

fn is_override(key: &str) -> (r: bool)
    ensures
        r == is_override_key(key@),
{
    text::str_eq(key, "COLORTERM") || text::str_eq(key, "DBUS_SESSION_BUS_ADDRESS") || text::str_eq(key, "DISPLAY")
        || text::str_eq(key, "GH_TOKEN") || text::str_eq(key, "GITHUB_TOKEN") || text::str_eq(key, "GPG_AGENT_INFO")
        || text::str_eq(key, "GPG_TTY") || text::str_eq(key, "SSH_AGENT_PID") || text::str_eq(key, "SSH_AUTH_SOCK")
        || text::str_eq(key, "TERM") || text::str_eq(key, "TERM_PROGRAM") || text::str_eq(key, "TMPDIR") || text::str_eq(
        key,
        "WAYLAND_DISPLAY",
    ) || text::str_eq(key, "XAUTHORITY")
}

/// Variables that hold a list of paths.
pub open spec fn path_like(key: Text) -> bool {
    text::ends_with(key, "PATH"@)
}

pub fn is_path_like_key(key: &str) -> (r: bool)
    ensures
        r == path_like(key@),
{
    text::chars_end_with(&text::chars_of(key), "PATH")
}

// ── Paths ──

/// The parts of a path that tell it apart: neither empty parts nor `.`, except
/// for a `.` in front.
pub open spec fn significant_parts(parts: Seq<Text>) -> Seq<Text>
    decreases parts.len(),
{
    if parts.len() == 0 {
        Seq::empty()
    } else {
        let rest = significant_parts(parts.drop_last());
        let p = parts.last();
        if p.len() == 0 || (p == "."@ && parts.len() > 1) {
            rest
        } else {
            rest.push(p)
        }
    }
}

/// What two spellings of one path have in common.
pub struct PathModel {
    pub rooted: bool,
    pub parts: Seq<Text>,
}

pub open spec fn path_model(path: Text) -> PathModel {
    PathModel {
        rooted: path.len() > 0 && path[0] == '/',
        parts: significant_parts(text::split(path, '/')),
    }
}

pub(crate) fn path_parts(path: &str) -> (r: (bool, Vec<String>))
    ensures
        (PathModel { rooted: r.0, parts: text::texts(r.1@) }) == path_model(path@),
{
    let chars = text::chars_of(path);
    let rooted = chars.len() > 0 && chars[0] == '/';
    let parts = text::chars_split(&chars, '/');
    let mut kept: Vec<String> = Vec::new();
    let mut i: usize = 0;
    assert(text::texts(kept@) =~= significant_parts(text::texts(parts@).take(0)));
    while i < parts.len()
        invariant
            i <= parts@.len(),
            text::texts(kept@) == significant_parts(text::texts(parts@).take(i as int)),
        decreases parts@.len() - i,
    {
        let p = parts[i].clone();
        proof {
            let all = text::texts(parts@);
            assert(all.take(i + 1).drop_last() =~= all.take(i as int));
            assert(all.take(i + 1).last() == p@);
            assert(text::texts(kept@.push(p)) =~= text::texts(kept@).push(p@));
        }
        if !(p.as_str().unicode_len() == 0 || (text::str_eq(p.as_str(), ".") && i > 0)) {
            kept.push(p);
        }
        i = i + 1;
    }
    assert(text::texts(parts@).take(i as int) =~= text::texts(parts@));
    (rooted, kept)
}

pub(crate) fn strings_eq(a: &Vec<String>, b: &Vec<String>) -> (r: bool)
    ensures
        r == (text::texts(a@) == text::texts(b@)),
{
    if a.len() != b.len() {
        assert(text::texts(a@).len() != text::texts(b@).len());
        return false;
    }
    let mut i: usize = 0;
    while i < a.len()
        invariant
            a@.len() == b@.len(),
            i <= a@.len(),
            forall|j: int| 0 <= j < i ==> #[trigger] a@[j]@ == b@[j]@,
        decreases a@.len() - i,
    {
        if !text::str_eq(a[i].as_str(), b[i].as_str()) {
            assert(text::texts(a@)[i as int] != text::texts(b@)[i as int]);
            return false;
        }
        i = i + 1;
    }
    assert(text::texts(a@) =~= text::texts(b@));
    true
}

/// Whether two texts spell the same path.
pub fn same_path(a: &str, b: &str) -> (r: bool)
    ensures
        r == (path_model(a@) == path_model(b@)),
{
    let (ra, pa) = path_parts(a);
    let (rb, pb) = path_parts(b);
    ra == rb && strings_eq(&pa, &pb)
}

// ── Path lists ──

/// Whether a list holds a path, in any spelling.
pub open spec fn has_path(paths: Seq<Text>, path: Text) -> bool {
    exists|i: int| 0 <= i < paths.len() && path_model(#[trigger] paths[i]) == path_model(path)
}

/// The paths without those that occurred before.
pub open spec fn distinct_paths(paths: Seq<Text>) -> Seq<Text>
    decreases paths.len(),
{
    if paths.len() == 0 {
        Seq::empty()
    } else {
        let before = distinct_paths(paths.drop_last());
        if has_path(before, paths.last()) {
            before
        } else {
            before.push(paths.last())
        }
    }
}

/// Two path lists as one: the paths of the first in front, each path once.
pub open spec fn merged_paths(existing: Text, ambient: Text) -> Text {
    if existing.len() == 0 {
        ambient
    } else if ambient.len() == 0 {
        existing
    } else {
        text::join(distinct_paths(text::split(existing, ':') + text::split(ambient, ':')), ":"@)
    }
}

fn contains_path(paths: &Vec<String>, path: &str) -> (r: bool)
    ensures
        r == has_path(text::texts(paths@), path@),
{
    let mut i: usize = 0;
    while i < paths.len()
        invariant
            i <= paths@.len(),
            forall|j: int| 0 <= j < i ==> path_model(#[trigger] text::texts(paths@)[j]) != path_model(path@),
        decreases paths@.len() - i,
    {
        assert(text::texts(paths@)[i as int] == paths@[i as int]@);
        if same_path(paths[i].as_str(), path) {
            return true;
        }
        i = i + 1;
    }
    false
}

pub fn merge_path_like(existing: &str, ambient: &str) -> (r: String)
    ensures
        r@ == merged_paths(existing@, ambient@),
{
    if existing.unicode_len() == 0 {
        return ambient.to_owned();
    }
    if ambient.unicode_len() == 0 {
        return existing.to_owned();
    }
    let mut all = text::chars_split(&text::chars_of(existing), ':');
    let mut more = text::chars_split(&text::chars_of(ambient), ':');
    let ghost first = all@;
    let ghost second = more@;
    all.append(&mut more);
    let mut ordered: Vec<String> = Vec::new();
    let mut i: usize = 0;
    proof {
        assert(text::texts(all@) =~= text::texts(first) + text::texts(second));
        assert(text::texts(ordered@) =~= distinct_paths(text::texts(all@).take(0)));
    }
    while i < all.len()
        invariant
            i <= all@.len(),
            text::texts(ordered@) == distinct_paths(text::texts(all@).take(i as int)),
        decreases all@.len() - i,
    {
        let p = all[i].clone();
        proof {
            let t = text::texts(all@);
            assert(t.take(i + 1).drop_last() =~= t.take(i as int));
            assert(t.take(i + 1).last() == p@);
            assert(text::texts(ordered@.push(p)) =~= text::texts(ordered@).push(p@));
        }
        if !contains_path(&ordered, p.as_str()) {
            ordered.push(p);
        }
        i = i + 1;
    }
    assert(text::texts(all@).take(i as int) =~= text::texts(all@));
    text::join_strings(&ordered, ":")
}

// ── Environments ──

/// The value of a variable after the merge, for a variable of either side.
pub open spec fn merged_value(snapshot: Map<Text, Text>, ambient: Map<Text, Text>, key: Text) -> Text {
    if !ambient.dom().contains(key) {
        snapshot[key]
    } else if !snapshot.dom().contains(key) {
        ambient[key]
    } else if path_like(key) {
        merged_paths(snapshot[key], ambient[key])
    } else if is_override_key(key) {
        ambient[key]
    } else {
        snapshot[key]
    }
}

/// A snapshot brought up to date.
pub open spec fn merged_env(snapshot: Map<Text, Text>, ambient: Map<Text, Text>) -> Map<Text, Text> {
    Map::new(
        |k: Text| snapshot.dom().contains(k) || ambient.dom().contains(k),
        |k: Text| merged_value(snapshot, ambient, k),
    )
}

pub fn merge_snapshot_env(snapshot: &EnvSnapshot, ambient: &TextMap<String>) -> (r: TextMap<String>)
    requires
        snapshot.env.wf(),
        ambient.wf(),
    ensures
        r.wf(),
        r.text_map() == merged_env(snapshot.env.text_map(), ambient.text_map()),
{
    let ghost snap = snapshot.env.text_map();
    let ghost amb = ambient.text_map();
    let ghost keys = ambient.spec_keys();
    let mut merged = snapshot.env.copy();
    let mut i: usize = 0;
    proof {
        ambient.lemma_keys();
        assert(merged.text_map() =~= snap);
        assert forall|j: int| 0 <= j < keys.len() implies amb.dom().contains(
            #[trigger] keys[j],
        ) by {
            assert(keys.contains(keys[j]));
        }
    }
    while i < ambient.len()
        invariant
            i <= keys.len(),
            keys == ambient.spec_keys(),
            crate::textmap::ascending(keys),
            ambient.wf(),
            merged.wf(),
            snap == snapshot.env.text_map(),
            amb == ambient.text_map(),
            forall|j: int| 0 <= j < keys.len() ==> amb.dom().contains(#[trigger] keys[j]),
            forall|k: Text| #[trigger]
                merged.text_map().dom().contains(k) <==> (snap.dom().contains(k) || keys.take(
                    i as int,
                ).contains(k)),
            forall|k: Text| #[trigger]
                merged.text_map().dom().contains(k) ==> merged.text_map()[k] == if keys.take(
                    i as int,
                ).contains(k) {
                    merged_value(snap, amb, k)
                } else {
                    snap[k]
                },
        decreases keys.len() - i,
    {
        let key = ambient.key_at(i).clone();
        let value = ambient.value_at(i).clone();
        let ghost before = merged;
        proof {
            let done = keys.take(i as int);
            let next = keys.take(i + 1);
            assert(next =~= done.push(key@));
            assert forall|k: Text| #[trigger] next.contains(k) == (done.contains(k) || k == key@) by {
                if next.contains(k) {
                    let j = next.index_of(k);
                    if j < i {
                        assert(done[j] == k);
                    }
                }
                if done.contains(k) {
                    let j = done.index_of(k);
                    assert(next[j] == k);
                }
                assert(next[i as int] == key@);
            }
            if done.contains(key@) {
                let j = done.index_of(key@);
                assert(keys[j] == keys[i as int]);
                crate::textmap::lemma_lt_irreflexive(key@);
                assert(crate::textmap::text_lt(keys[j], keys[i as int]));
            }
            assert(amb[key@] == value@);
            assert(before.text_map().dom().contains(key@) == snap.dom().contains(key@));
        }
        let fresh: Option<String> = match merged.get(key.as_str()) {
            Some(existing) => {
                assert(before.text_map()[key@] == existing@);
                if is_path_like_key(key.as_str()) {
                    Some(merge_path_like(existing.as_str(), value.as_str()))
                } else if is_override(key.as_str()) {
                    Some(value)
                } else {
                    None
                }
            },
            None => Some(value),
        };
        let ghost k = key@;
        match fresh {
            Some(v) => {
                let ghost put = v@;
                merged.insert(key, v);
                assert(merged.text_map() =~= before.text_map().insert(k, put));
                assert(put == merged_value(snap, amb, k));
            },
            None => {
                assert(merged.text_map() == before.text_map());
                assert(before.text_map()[k] == merged_value(snap, amb, k));
            },
        }
        i = i + 1;
    }
    proof {
        assert(keys.take(i as int) =~= keys);
        ambient.lemma_keys();
        assert forall|k: Text| keys.contains(k) <==> amb.dom().contains(k) by {
            assert(ambient@.dom().contains(k) <==> keys.contains(k));
        }
        assert(merged.text_map() =~= merged_env(snap, amb));
    }
    merged
}

/// A snapshot in which a job can run, given the environment around the daemon.
pub fn effective_snapshot(snapshot: &EnvSnapshot, ambient: &TextMap<String>) -> (r: EnvSnapshot)
    requires
        snapshot.env.wf(),
        ambient.wf(),
    ensures
        r.env.wf(),
        r.env.text_map() == merged_env(snapshot.env.text_map(), ambient.text_map()),
        r.cwd@ == snapshot.cwd@,
{
    EnvSnapshot { env: merge_snapshot_env(snapshot, ambient), cwd: snapshot.cwd.clone() }
}

// ── Laws ──

/// A merged list holds each path once and loses none.
pub proof fn lemma_distinct_paths(paths: Seq<Text>)
    ensures
        forall|i: int, j: int|
            0 <= i < j < distinct_paths(paths).len() ==> path_model(
                #[trigger] distinct_paths(paths)[i],
            ) != path_model(#[trigger] distinct_paths(paths)[j]),
        forall|i: int| 0 <= i < paths.len() ==> has_path(distinct_paths(paths), #[trigger] paths[i]),
        forall|i: int| 0 <= i < distinct_paths(paths).len() ==> paths.contains(
            #[trigger] distinct_paths(paths)[i],
        ),
    decreases paths.len(),
{
    if paths.len() > 0 {
        let init = paths.drop_last();
        lemma_distinct_paths(init);
        let before = distinct_paths(init);
        let now = distinct_paths(paths);
        let last = paths.last();
        assert forall|i: int| 0 <= i < paths.len() implies has_path(now, #[trigger] paths[i]) by {
            if i < init.len() {
                assert(has_path(before, init[i]));
                let j = choose|j: int|
                    0 <= j < before.len() && path_model(#[trigger] before[j]) == path_model(init[i]);
                assert(now[j] == before[j]);
            } else if !has_path(before, last) {
                assert(now[before.len() as int] == last);
            }
        }
        assert forall|i: int| 0 <= i < now.len() implies paths.contains(#[trigger] now[i]) by {
            if i < before.len() {
                assert(init.contains(before[i]));
                let j = init.index_of(before[i]);
                assert(paths[j] == now[i]);
            } else {
                assert(paths[paths.len() - 1] == now[i]);
            }
        }
        assert forall|i: int, j: int| 0 <= i < j < now.len() implies path_model(#[trigger] now[i])
            != path_model(#[trigger] now[j]) by {
            assert(now[i] == before[i]);
            if j < before.len() {
                assert(now[j] == before[j]);
            } else if path_model(before[i]) == path_model(last) {
                assert(has_path(before, last));
            }
        }
    }
}

/// Paths of the snapshot keep their place in front of the others.
pub proof fn lemma_snapshot_paths_first(existing: Seq<Text>, ambient: Seq<Text>)
    ensures
        distinct_paths(existing).is_prefix_of(distinct_paths(existing + ambient)),
    decreases ambient.len(),
{
    if ambient.len() == 0 {
        assert(existing + ambient =~= existing);
    } else {
        lemma_snapshot_paths_first(existing, ambient.drop_last());
        assert((existing + ambient).drop_last() =~= existing + ambient.drop_last());
    }
}

/// Bringing a snapshot up to date a second time changes nothing, path lists
/// aside.
pub proof fn lemma_merge_idempotent(snapshot: Map<Text, Text>, ambient: Map<Text, Text>)
    ensures
        forall|k: Text| #[trigger]
            merged_env(snapshot, ambient).dom().contains(k) && !path_like(k) ==> merged_env(
                merged_env(snapshot, ambient),
                ambient,
            )[k] == merged_env(snapshot, ambient)[k],
        merged_env(merged_env(snapshot, ambient), ambient).dom() == merged_env(
            snapshot,
            ambient,
        ).dom(),
{
    assert(merged_env(merged_env(snapshot, ambient), ambient).dom() =~= merged_env(
        snapshot,
        ambient,
    ).dom());
}

} // verus!
