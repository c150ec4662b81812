use harness::paths::{api_key_source_for, config_file_for, expand_home_with, join, path_components, ConfigError, KeySource};
use harness::project::{find_active, find_active_with_home, Project};

fn project(path: &str, team: &str, name: &str) -> Project {
    Project {
        path: path.to_string(),
        team: team.to_string(),
        project: name.to_string(),
    }
}

#[test]
fn matches_descendant_of_project_root() {
    let projects = vec![project("/repos/va", "staging_assistant", "backend")];
    let cwd = "/repos/va/libs/api";
    let active = find_active(&projects, cwd).expect("should match");
    assert_eq!(active.team, "staging_assistant");
}

#[test]
fn prefers_most_specific_match() {
    let projects = vec![
        project("/repos", "team-a", "proj-a"),
        project("/repos/va", "staging_assistant", "backend"),
    ];
    let cwd = "/repos/va/libs/api";
    let active = find_active(&projects, cwd).expect("should match");
    assert_eq!(active.team, "staging_assistant");
}

#[test]
fn no_match_outside_any_project_root() {
    let projects = vec![project("/repos/va", "staging_assistant", "backend")];
    let cwd = "/somewhere/else";
    assert!(find_active(&projects, cwd).is_none());
}

#[test]
fn components_follow_std_path() {
    assert_eq!(path_components("/a//b/./c/"), vec!["/", "a", "b", "c"]);
    assert_eq!(path_components("./a/../b"), vec![".", "a", "..", "b"]);
    assert_eq!(path_components(""), Vec::<String>::new());
    assert_eq!(path_components("/"), vec!["/"]);
}

#[test]
fn home_is_expanded_and_ties_go_to_the_last_mapping() {
    assert_eq!(expand_home_with("~/code/va", Some("/home/u")), "/home/u/code/va");
    assert_eq!(expand_home_with("~/code/va", None), "~/code/va");
    assert_eq!(expand_home_with("/abs", Some("/home/u")), "/abs");
    assert_eq!(join("/home/u/", "x"), "/home/u/x");
    assert_eq!(join("/home/u", "/etc"), "/etc");
    let projects = vec![
        project("~/va", "first", "p"),
        project("/home/u/va/", "second", "p"),
        project("/home/u/vb", "third", "p"),
    ];
    assert_eq!(find_active_with_home(&projects, "/home/u/va/x", Some("/home/u")), Some(1));
    assert_eq!(find_active_with_home(&projects, "/home/u/va", Some("/home/u")), Some(1));
    assert_eq!(find_active_with_home(&projects, "/home/u/vab", Some("/home/u")), None);
}

#[test]
fn config_file_for_each_home_answer() {
    assert_eq!(config_file_for(Some("/home/u"), "projects.toml").unwrap(), "/home/u/.harness/projects.toml");
    assert_eq!(config_file_for(Some("/home/u/"), "x.toml").unwrap(), "/home/u/.harness/x.toml");
    assert!(matches!(config_file_for(None, "x.toml"), Err(ConfigError::NoHomeDirectory)));
}

#[test]
fn api_key_comes_from_the_variable_before_the_key_file() {
    assert_eq!(api_key_source_for(Some("  abc \n"), Some("/home/u")).unwrap(), KeySource::Env("abc".to_string()));
    assert_eq!(api_key_source_for(None, Some("/home/u")).unwrap(), KeySource::File("/home/u/.secrets/linear-key".to_string()));
    assert!(matches!(api_key_source_for(None, None), Err(ConfigError::NoHomeDirectory)));
    assert_eq!(harness::paths::api_key_source(Some("k")).unwrap(), KeySource::Env("k".to_string()));
}
