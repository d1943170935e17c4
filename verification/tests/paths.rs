//! Workspace path normalization against concrete environments.

use litefetch_supervisor::paths::{
    app_data_root_path, default_workspace_path, join_path, normalize_path, workspace_config_file,
};

#[test]
fn tilde_alone_expands_to_home() {
    let r = normalize_path("~", Some("/home/u"), Some("/work"));
    assert_eq!(r, "/home/u");
}

#[test]
fn tilde_slash_expands_to_home() {
    let r = normalize_path("~/", Some("/home/u"), Some("/work"));
    assert_eq!(r, "/home/u");
}

#[test]
fn tilde_prefix_joins_rest_onto_home() {
    let r = normalize_path("~/docs/notes", Some("/home/u"), Some("/work"));
    assert_eq!(r, "/home/u/docs/notes");
}

#[test]
fn repeated_tilde_prefixes_are_all_stripped() {
    let r = normalize_path("~/~/x", Some("/home/u"), Some("/work"));
    assert_eq!(r, "/home/u/x");
}

#[test]
fn tilde_double_slash_leaves_absolute_rest() {
    let r = normalize_path("~//x", Some("/home/u"), Some("/work"));
    assert_eq!(r, "/x");
}

#[test]
fn relative_path_resolves_against_cwd() {
    let r = normalize_path("relative/x", Some("/home/u"), Some("/work"));
    assert_eq!(r, "/work/relative/x");
}

#[test]
fn absolute_path_passes_through() {
    let r = normalize_path("/abs/x", Some("/home/u"), Some("/work"));
    assert_eq!(r, "/abs/x");
}

#[test]
fn tilde_without_home_is_a_literal_relative_path() {
    let r = normalize_path("~", None, Some("/work"));
    assert_eq!(r, "/work/~");
    let r2 = normalize_path("~/x", None, Some("/work"));
    assert_eq!(r2, "/work/~/x");
}

#[test]
fn relative_path_without_cwd_stays_relative() {
    let r = normalize_path("relative/x", None, None);
    assert_eq!(r, "relative/x");
}

#[test]
fn join_inserts_separator_only_where_missing() {
    assert_eq!(join_path("/a", "b"), "/a/b");
    assert_eq!(join_path("/a/", "b"), "/a/b");
    assert_eq!(join_path("/a", ""), "/a");
    assert_eq!(join_path("/a", "/b"), "/b");
    assert_eq!(join_path("", "b"), "b");
}

#[test]
fn fixed_locations_sit_under_the_app_data_root() {
    let root = app_data_root_path("/home/u/.local/share");
    assert_eq!(root, "/home/u/.local/share/litefetch");
    assert_eq!(default_workspace_path(&root), "/home/u/.local/share/litefetch/workspace");
    assert_eq!(
        workspace_config_file(&root),
        "/home/u/.local/share/litefetch/workspace_path.json"
    );
}
