use harness::extensions::{build_command, run_step, select_extensions, Extension, ExtensionEvent, RunAction, RunEvent, RunState};
use harness::linear::{Issue, RelationConnection, State, Team};

fn sample_issue() -> Issue {
    Issue {
        id: "id-1".to_string(),
        identifier: "SA-1".to_string(),
        title: "Fix the thing".to_string(),
        priority: 2,
        state: State {
            id: "state-1".to_string(),
            name: "Todo".to_string(),
            state_type: "unstarted".to_string(),
        },
        team: Team {
            id: "team-1".to_string(),
            name: "Staging Assistant".to_string(),
            key: "SA".to_string(),
        },
        project: None,
        updated_at: "2026-01-01T00:00:00.000Z".to_string(),
        url: "https://linear.app/x/issue/SA-1".to_string(),
        description: None,
        assignee: None,
        inverse_relations: RelationConnection { nodes: Vec::new() },
    }
}

#[test]
fn substitutes_placeholders() {
    let cmd = build_command(
        "gen --id {identifier} --title \"{title}\"",
        &sample_issue(),
        None,
    );
    assert_eq!(cmd, "gen --id SA-1 --title \"Fix the thing\"");
}

#[test]
fn substitutes_project_root() {
    let cmd = build_command(
        "cd {project_root} && run {identifier}",
        &sample_issue(),
        Some("/repos/va"),
    );
    assert_eq!(cmd, "cd /repos/va && run SA-1");
}

#[test]
fn skips_extensions_on_reserved_or_duplicate_keys() {
    let entries = vec![
        Extension {
            key: 'q',
            name: "Bad".to_string(),
            command: "echo".to_string(),
            description: String::new(),
        },
        Extension {
            key: 'x',
            name: "Good".to_string(),
            command: "echo".to_string(),
            description: String::new(),
        },
        Extension {
            key: 'x',
            name: "Dup".to_string(),
            command: "echo".to_string(),
            description: String::new(),
        },
    ];

    let (extensions, warnings) = select_extensions(entries);

    assert_eq!(extensions.len(), 1);
    assert_eq!(extensions[0].name, "Good");
    assert_eq!(
        warnings,
        vec![
            "warning: extension 'Bad' uses reserved key 'q', skipping".to_string(),
            "warning: extension 'Dup' reuses key 'x' already bound by another extension, skipping"
                .to_string(),
        ]
    );
}

#[test]
fn substitutes_every_field_and_leaves_plain_text_alone() {
    let mut issue = sample_issue();
    issue.assignee = Some(harness::linear::Assignee { name: "Ann".to_string() });
    issue.project = Some(harness::linear::Project { name: "backend".to_string() });
    let cmd = build_command(
        "{team}/{state}/{priority}/{assignee}/{project}/{url}/{identifier}{identifier}",
        &issue,
        None,
    );
    assert_eq!(cmd, "SA/Todo/2/Ann/backend/https://linear.app/x/issue/SA-1/SA-1SA-1");
    let plain = build_command("echo hello", &issue, Some("/r"));
    assert_eq!(plain, "echo hello");
    let missing = build_command("[{assignee}][{project}][{project_root}]", &sample_issue(), None);
    assert_eq!(missing, "[][][]");
}

#[test]
fn config_path_points_into_dot_harness() {
    if let Ok(p) = harness::extensions::config_path() {
        assert!(p.ends_with("/.harness/extensions.toml"), "{p}");
    }
    if let Ok(p) = harness::project::config_path() {
        assert!(p.ends_with("/.harness/projects.toml"), "{p}");
    }
}

fn line_of(ev: &ExtensionEvent) -> Option<(String, bool, String)> {
    match ev {
        ExtensionEvent::Line { name, stderr, text } => Some((name.clone(), *stderr, text.clone())),
        ExtensionEvent::Done { .. } => None,
    }
}

fn done_of(ev: &ExtensionEvent) -> Option<(String, bool)> {
    match ev {
        ExtensionEvent::Done { name, success } => Some((name.clone(), *success)),
        ExtensionEvent::Line { .. } => None,
    }
}

#[test]
fn runner_streams_lines_and_reports_the_exit_once() {
    let mut st = RunState::new("Ext".to_string());
    let (evs, act) = run_step(&mut st, RunEvent::StdoutLine("out".to_string()));
    assert_eq!(act, RunAction::Continue);
    assert_eq!(line_of(&evs[0]), Some(("Ext".to_string(), false, "out".to_string())));
    let (evs, act) = run_step(&mut st, RunEvent::StderrLine("err".to_string()));
    assert_eq!(act, RunAction::Continue);
    assert_eq!(line_of(&evs[0]), Some(("Ext".to_string(), true, "err".to_string())));
    let (evs, _) = run_step(&mut st, RunEvent::StdoutClosed);
    assert!(evs.is_empty());
    assert!(!st.stdout_open && st.stderr_open);
    let (evs, act) = run_step(&mut st, RunEvent::Exited(true));
    assert_eq!(act, RunAction::Stop);
    assert_eq!(evs.len(), 1);
    assert_eq!(done_of(&evs[0]), Some(("Ext".to_string(), true)));
    assert!(st.finished);
}

#[test]
fn runner_reports_launch_failure_and_cancellation() {
    let mut st = RunState::new("Ext".to_string());
    let (evs, act) = run_step(&mut st, RunEvent::SpawnFailed("no such file".to_string()));
    assert_eq!(act, RunAction::Stop);
    assert_eq!(
        line_of(&evs[0]),
        Some(("Ext".to_string(), true, "failed to launch command: no such file".to_string()))
    );
    assert_eq!(done_of(&evs[1]), Some(("Ext".to_string(), false)));

    let mut st = RunState::new("Ext".to_string());
    let (evs, act) = run_step(&mut st, RunEvent::Cancel);
    assert_eq!(act, RunAction::KillTree);
    assert_eq!(line_of(&evs[0]), Some(("Ext".to_string(), true, "(cancelled by user)".to_string())));
    assert_eq!(done_of(&evs[1]), Some(("Ext".to_string(), false)));
    assert!(st.finished);
}
