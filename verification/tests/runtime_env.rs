use cue_shell::runtime_env::{
    effective_snapshot, is_path_like_key, merge_path_like, merge_snapshot_env, EnvSnapshot,
};
use cue_shell::textmap::TextMap;

fn variables(pairs: &[(&str, &str)]) -> TextMap<String> {
    let mut map = TextMap::new();
    for (key, value) in pairs {
        map.insert((*key).to_string(), (*value).to_string());
    }
    map
}

fn snapshot(pairs: &[(&str, &str)]) -> EnvSnapshot {
    EnvSnapshot { env: variables(pairs), cwd: "/tmp".to_string() }
}

#[test]
fn merges_missing_ambient_variables() {
    let snapshot = snapshot(&[("FOO", "bar")]);
    let ambient = variables(&[("BAR", "baz")]);

    let merged = merge_snapshot_env(&snapshot, &ambient);

    assert_eq!(merged.get("FOO").map(String::as_str), Some("bar"));
    assert_eq!(merged.get("BAR").map(String::as_str), Some("baz"));
}

#[test]
fn appends_missing_path_entries_from_ambient_env() {
    let snapshot = snapshot(&[("PATH", "/snapshot/bin:/shared/bin")]);
    let ambient = variables(&[("PATH", "/ambient/bin:/shared/bin")]);

    let merged = merge_snapshot_env(&snapshot, &ambient);

    assert_eq!(
        merged.get("PATH").map(String::as_str),
        Some("/snapshot/bin:/shared/bin:/ambient/bin")
    );
}

#[test]
fn refreshes_ambient_session_variables() {
    let snapshot = snapshot(&[("SSH_AUTH_SOCK", "/stale.sock")]);
    let ambient = variables(&[("SSH_AUTH_SOCK", "/fresh.sock")]);

    let merged = merge_snapshot_env(&snapshot, &ambient);

    assert_eq!(merged.get("SSH_AUTH_SOCK").map(String::as_str), Some("/fresh.sock"));
}

#[test]
fn the_snapshot_wins_for_ordinary_variables() {
    let snapshot = snapshot(&[("FOO", "bar")]);
    let ambient = variables(&[("FOO", "other")]);

    let merged = effective_snapshot(&snapshot, &ambient);

    assert_eq!(merged.env.get("FOO").map(String::as_str), Some("bar"));
    assert_eq!(merged.env.len(), 1);
    assert_eq!(merged.cwd, "/tmp");
}

#[test]
fn path_like_values_keep_their_order_and_gain_no_duplicates() {
    assert!(is_path_like_key("PATH"));
    assert!(!is_path_like_key("HOME"));
    assert_eq!(merge_path_like("/a:/b", "/b:/c:/a"), "/a:/b:/c");
}
