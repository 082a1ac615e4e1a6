use cue_shell::tui::completion::{
    builtin_command_candidates, command_completion_candidates, completion_replacement,
    path_completion_candidates, path_completion_context, path_completion_context_from_sources,
    shared_prefix, CommandEntry, DirectoryEntry, DirectoryListing,
};

#[test]
fn command_completion_ignores_non_executable_files_on_unix() {
    let entries = vec![
        CommandEntry { name: "cue-demo".to_string(), executable: true },
        CommandEntry { name: "cue-draft".to_string(), executable: false },
    ];

    let candidates = command_completion_candidates("cue-d", &entries);

    assert_eq!(candidates, vec!["cue-demo".to_string()]);
}

#[test]
fn path_completion_context_uses_home_for_tilde_prefixes() {
    let context = path_completion_context_from_sources(
        "~/src/app",
        Some("/home/test"),
        Ok("/work".to_string()),
    )
    .expect("tilde path should not fail")
    .expect("tilde path should resolve with HOME");

    assert_eq!(context.base_dir, "/home/test/src");
    assert_eq!(context.partial, "app");
    assert_eq!(context.display_prefix, "~/src/");

    let context =
        path_completion_context_from_sources("~", Some("/home/test"), Ok("/work".to_string()))
            .expect("bare tilde should not fail")
            .expect("bare tilde should resolve with HOME");

    assert_eq!(context.base_dir, "/home/test");
    assert_eq!(context.partial, "");
    assert_eq!(context.display_prefix, "~/");
}

#[test]
fn path_completion_context_rejects_tilde_without_home() {
    assert!(path_completion_context_from_sources("~/src", None, Ok("/work".to_string()))
        .expect("missing HOME is not a filesystem error")
        .is_none());
    assert!(path_completion_context_from_sources("~/src", Some(""), Ok("/work".to_string()))
        .expect("empty HOME is not a filesystem error")
        .is_none());
}

#[test]
fn relative_path_completion_context_does_not_require_home() {
    let context =
        path_completion_context_from_sources("src/app", None, Err("not available".to_string()))
            .expect("relative path should not need HOME")
            .expect("relative path should have completion context");

    assert_eq!(context.base_dir, "src");
    assert_eq!(context.partial, "app");
    assert_eq!(context.display_prefix, "src/");
}

#[test]
fn bare_relative_path_completion_requires_current_dir() {
    let context = path_completion_context_from_sources("app", None, Ok("/work".to_string()))
        .expect("bare relative path should use current dir")
        .expect("bare relative path should have completion context");

    assert_eq!(context.base_dir, "/work");
    assert_eq!(context.partial, "app");
    assert_eq!(context.display_prefix, "");
}

#[test]
fn bare_relative_path_completion_reports_current_dir_failure() {
    let message = path_completion_context_from_sources(
        "app",
        None,
        Err("current directory was removed".to_string()),
    )
    .expect_err("bare relative path completion should not hide current_dir errors");

    assert!(message.contains("resolve current directory for path completion"));
    assert!(message.contains("current directory was removed"));
}

#[test]
fn a_single_candidate_is_completed_whole() {
    assert_eq!(builtin_command_candidates(":cro"), vec![":cron", ":crons"]);
    let words = |list: &[&str]| -> Vec<String> { list.iter().map(|w| w.to_string()).collect() };
    assert_eq!(shared_prefix(&words(&["cargo", "cat"])), "ca");
    assert_eq!(completion_replacement(&words(&["cargo", "cat"]), "c"), Some("ca".to_string()));
    assert_eq!(completion_replacement(&words(&["cargo", "cat"]), "ca"), None);
    assert_eq!(completion_replacement(&Vec::new(), "c"), None);
}

#[test]
fn directories_are_listed_with_a_slash() {
    let context = path_completion_context("src/a", "/home/test", "/work");
    let listing = DirectoryListing::Entries(vec![
        DirectoryEntry { name: "app".to_string(), is_dir: true },
        DirectoryEntry { name: "ast.rs".to_string(), is_dir: false },
        DirectoryEntry { name: "main.rs".to_string(), is_dir: false },
    ]);
    assert_eq!(
        path_completion_candidates(&context, &listing).unwrap(),
        vec!["src/app/", "src/ast.rs"]
    );
    let missing = path_completion_candidates(&context, &DirectoryListing::NotFound);
    assert!(missing.unwrap().is_empty());
    let unreadable = DirectoryListing::Unreadable("permission denied".to_string());
    assert!(path_completion_candidates(&context, &unreadable).is_err());
}
