use harness::app::{App, Mode};
use harness::extensions::Extension;
use harness::keys::{Command, Key};
use harness::linear::{Issue, RelationConnection, State, Team};
use harness::project::Project;
use tokio::sync::oneshot;

fn issue(id: &str) -> Issue {
    Issue {
        id: id.to_string(),
        identifier: format!("SA-{id}"),
        title: "T".to_string(),
        priority: 0,
        state: State { id: "s".to_string(), name: "Todo".to_string(), state_type: "unstarted".to_string() },
        team: Team { id: "t".to_string(), name: "Team".to_string(), key: "SA".to_string() },
        project: None,
        updated_at: "2026".to_string(),
        url: "u".to_string(),
        description: None,
        assignee: None,
        inverse_relations: RelationConnection { nodes: Vec::new() },
    }
}

#[test]
fn bindings_depend_on_the_mode() {
    let mut app = App::new();
    assert_eq!(app.key_command(Key::Char('q')), Command::Quit);
    assert_eq!(app.key_command(Key::Down), Command::SelectNext);
    assert_eq!(app.key_command(Key::Char('n')), Command::Nothing);
    assert_eq!(app.key_command(Key::Char('x')), Command::LaunchExtension('x'));
    app.active_project = Some(Project { path: "/p".to_string(), team: "T".to_string(), project: "P".to_string() });
    assert_eq!(app.key_command(Key::Char('n')), Command::OpenNewIssue);
    app.mode = Mode::Detail;
    assert_eq!(app.key_command(Key::Char('G')), Command::ScrollDetail(i32::MAX));
    assert_eq!(app.key_command(Key::Char('h')), Command::CloseDetail);
    assert_eq!(app.key_command(Key::Char('j')), Command::NextIssue);
    assert_eq!(app.key_command(Key::Up), Command::PrevIssue);
    assert_eq!(app.key_command(Key::Char('d')), Command::ScrollDetail(10));
    app.mode = Mode::ExtensionOutput { scroll: 0 };
    assert_eq!(app.key_command(Key::Char('K')), Command::CancelExtension);
    assert_eq!(app.key_command(Key::PageUp), Command::ScrollExtensionOutput(-10));
    app.mode = Mode::NewIssueTitle { input: String::new() };
    assert_eq!(app.key_command(Key::Char('q')), Command::NewIssueInput('q'));
    app.mode = Mode::FilterMenu { selected: 0 };
    assert_eq!(app.key_command(Key::Char('c')), Command::ClearFilters);
    app.mode = Mode::Filter { kind: harness::filters::FilterKind::Status, options: vec![], selected: 0, checked: vec![] };
    assert_eq!(app.key_command(Key::Char(' ')), Command::FilterToggle);
    app.mode = Mode::StatusPicker { options: vec![], selected: 0 };
    assert_eq!(app.key_command(Key::Enter), Command::StatusPickerConfirm);
    assert_eq!(app.key_command(Key::Other), Command::Nothing);
}

#[test]
fn launching_reopens_a_running_extension_instead_of_starting_another() {
    let mut app = App::new();
    app.extensions = vec![Extension {
        key: 'x',
        name: "X".to_string(),
        command: "echo {identifier}".to_string(),
        description: String::new(),
    }];
    assert!(app.launch_extension('y').is_none());
    assert!(app.launch_extension('x').is_none(), "no issue selected");
    app.set_issues(vec![issue("1")]);
    let req = app.launch_extension('x').expect("a run to start");
    assert_eq!(req.extension.name, "X");
    assert_eq!(req.issue.id, "1");
    assert!(req.project_root.is_none());
    let (tx, _rx) = oneshot::channel();
    app.start_extension(req.extension.name.clone(), tx);
    app.close_extension_output();
    assert!(app.launch_extension('x').is_none());
    assert!(matches!(app.mode, Mode::ExtensionOutput { scroll: 0 }));
}
