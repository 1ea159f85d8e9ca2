use codex_core::loader::{
    managed_config_home_path, repo_config_from_lookup, CandidateLookup,
    is_absolute_path, join_path, managed_config_default_path, resolve_managed_config_path, repo_config_candidate,
    resolve_repo_search_dir, user_config_path,
};

#[test]
fn join_path_follows_posix_rules() {
    assert_eq!(join_path("/home/u", "config.toml"), "/home/u/config.toml");
    assert_eq!(join_path("/home/u/", "config.toml"), "/home/u/config.toml");
    assert_eq!(join_path("", "config.toml"), "config.toml");
    assert_eq!(join_path("/home/u", "/etc/x"), "/etc/x");
    assert_eq!(join_path("/home/u", ""), "/home/u/");
}

#[test]
fn absolute_paths_start_at_root() {
    assert!(is_absolute_path("/a"));
    assert!(!is_absolute_path("a/b"));
    assert!(!is_absolute_path(""));
}

#[test]
fn managed_config_default_path_is_system_wide() {
    assert_eq!(managed_config_default_path("/home/u/.codex"), "/etc/codex/managed_config.toml");
}

#[test]
fn user_config_lives_in_codex_home() {
    assert_eq!(user_config_path("/home/u/.codex"), "/home/u/.codex/config.toml");
}

#[test]
fn repo_search_dir_resolution() {
    assert_eq!(resolve_repo_search_dir(Some("/abs/dir"), "/cwd"), "/abs/dir");
    assert_eq!(resolve_repo_search_dir(Some("rel/dir"), "/cwd"), "/cwd/rel/dir");
    assert_eq!(resolve_repo_search_dir(None, "/cwd"), "/cwd");
}

#[test]
fn repo_config_candidate_prefers_git_root() {
    assert_eq!(repo_config_candidate(Some("/repo"), "/repo/nested"), "/repo/.codex/config.toml");
    assert_eq!(repo_config_candidate(None, "/project"), "/project/.codex/config.toml");
}

#[test]
fn managed_config_override_wins_over_default() {
    assert_eq!(resolve_managed_config_path(Some("/tmp/m.toml"), "/h"), "/tmp/m.toml");
    assert_eq!(resolve_managed_config_path(None, "/h"), "/etc/codex/managed_config.toml");
}

#[test]
fn managed_config_off_unix_lives_in_codex_home() {
    assert_eq!(managed_config_home_path("/home/u/.codex"), "/home/u/.codex/managed_config.toml");
}

#[test]
fn repo_config_lookup_outcomes() {
    let c = || "/r/.codex/config.toml".to_string();
    assert_eq!(
        repo_config_from_lookup(c(), CandidateLookup::FileOrSymlink).unwrap(),
        Some(c())
    );
    assert_eq!(repo_config_from_lookup(c(), CandidateLookup::OtherEntry).unwrap(), None);
    assert_eq!(repo_config_from_lookup(c(), CandidateLookup::NotFound).unwrap(), None);
    let err = std::io::Error::new(std::io::ErrorKind::PermissionDenied, "denied");
    let got = repo_config_from_lookup(c(), CandidateLookup::Failed(err)).unwrap_err();
    assert_eq!(got.kind(), std::io::ErrorKind::PermissionDenied);
}
