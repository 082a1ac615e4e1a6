use cue_shell::tui::target_config::{display_path_with_home, home_path_from_env};

#[test]
fn display_path_abbreviates_home_prefix() {
    let rendered =
        display_path_with_home("/home/tester/cue-shell/client.toml", Some("/home/tester"));
    assert_eq!(rendered, "~/cue-shell/client.toml");
}

#[test]
fn display_path_keeps_absolute_path_without_home() {
    let path = "/tmp/cue-shell/client.toml";

    assert_eq!(display_path_with_home(path, None), path);
}

#[test]
fn display_home_rejects_empty_home() {
    assert_eq!(home_path_from_env(Some(String::new())), None);
    assert_eq!(home_path_from_env(Some("/home/t".to_string())), Some("/home/t".to_string()));
}
