use harness::app::{App, Mode};
use harness::filters::{BlockedFilter, FilterKind, SortKey};
use harness::linear::{Assignee, Issue, IssueRelation, RelatedIssue, RelationConnection, State, Team, WorkflowState};
use harness::project::Project;
use tokio::sync::oneshot;

fn sample_issue(id: &str, identifier: &str, state_id: &str, state_name: &str) -> Issue {
    Issue {
        id: id.to_string(),
        identifier: identifier.to_string(),
        title: format!("Issue {identifier}"),
        priority: 0,
        state: State {
            id: state_id.to_string(),
            name: state_name.to_string(),
            state_type: "unstarted".to_string(),
        },
        team: Team {
            id: "team-1".to_string(),
            name: "Staging Assistant".to_string(),
            key: "SA".to_string(),
        },
        project: None,
        updated_at: "2026-01-01T00:00:00.000Z".to_string(),
        url: "https://linear.app/x/issue/1".to_string(),
        description: None,
        assignee: None::<Assignee>,
        inverse_relations: RelationConnection { nodes: Vec::new() },
    }
}

fn workflow_state(id: &str, name: &str) -> WorkflowState {
    WorkflowState {
        id: id.to_string(),
        name: name.to_string(),
        state_type: "started".to_string(),
    }
}

#[test]
fn status_picker_preselects_the_issues_current_state() {
    let mut app = App::new();
    app.set_issues(vec![sample_issue("1", "SA-1", "state-todo", "Todo")]);
    let options = vec![
        workflow_state("state-todo", "Todo"),
        workflow_state("state-done", "Done"),
    ];
    app.open_status_picker(options);
    match app.mode {
        Mode::StatusPicker { selected, .. } => assert_eq!(selected, 0),
        _ => panic!("expected StatusPicker mode"),
    }
}

#[test]
fn confirming_status_picker_returns_issue_id_and_chosen_state() {
    let mut app = App::new();
    app.set_issues(vec![sample_issue("1", "SA-1", "state-todo", "Todo")]);
    app.open_status_picker(vec![
        workflow_state("state-todo", "Todo"),
        workflow_state("state-done", "Done"),
    ]);
    app.status_picker_move(1);
    let (issue_id, new_state) = app.status_picker_confirm().expect("a selection");
    assert_eq!(issue_id, "1");
    assert_eq!(new_state.name, "Done");
    assert!(matches!(app.mode, Mode::Normal));
}

#[test]
fn apply_state_change_updates_the_issue_and_keeps_it_selected() {
    let mut app = App::new();
    app.set_issues(vec![
        sample_issue("1", "SA-1", "state-todo", "Todo"),
        sample_issue("2", "SA-2", "state-todo", "Todo"),
    ]);
    app.selected = 1;
    app.apply_state_change("2", workflow_state("state-done", "Done"));

    let updated = app.all_issues.iter().find(|i| i.id == "2").unwrap();
    assert_eq!(updated.state.name, "Done");
    assert_eq!(app.selected_issue().unwrap().id, "2");
}

#[test]
fn apply_state_change_drops_issue_out_of_view_when_filtered_out() {
    let mut app = App::new();
    app.set_issues(vec![sample_issue("1", "SA-1", "state-todo", "Todo")]);
    app.filters.status = vec!["Todo".to_string()];
    app.apply_filters();
    assert_eq!(app.issues.len(), 1);

    app.apply_state_change("1", workflow_state("state-done", "Done"));
    assert!(app.issues.is_empty(), "issue should be filtered out once its status no longer matches");
}

#[test]
fn new_issue_prompt_collects_typed_title_and_trims_it() {
    let mut app = App::new();
    app.open_new_issue();
    for c in "  Fix the bug  ".chars() {
        app.new_issue_input(c);
    }
    let title = app.new_issue_confirm().expect("non-empty title");
    assert_eq!(title, "Fix the bug");
    assert!(matches!(app.mode, Mode::Normal));
}

#[test]
fn new_issue_prompt_rejects_blank_title() {
    let mut app = App::new();
    app.open_new_issue();
    for c in "   ".chars() {
        app.new_issue_input(c);
    }
    assert!(app.new_issue_confirm().is_none());
}

#[test]
fn backspace_removes_last_character_of_new_issue_title() {
    let mut app = App::new();
    app.open_new_issue();
    app.new_issue_input('a');
    app.new_issue_input('b');
    app.new_issue_backspace();
    match &app.mode {
        Mode::NewIssueTitle { input } => assert_eq!(input, "a"),
        _ => panic!("expected NewIssueTitle mode"),
    }
}

#[test]
fn add_issue_inserts_and_selects_the_new_issue() {
    let mut app = App::new();
    app.set_issues(vec![sample_issue("1", "SA-1", "state-todo", "Todo")]);
    app.add_issue(sample_issue("2", "SA-2", "state-todo", "Todo"));
    assert_eq!(app.all_issues.len(), 2);
    assert_eq!(app.selected_issue().unwrap().id, "2");
}

fn app_with_lines(lines: &[&str]) -> App {
    let mut app = App::new();
    let (cancel_tx, _cancel_rx) = oneshot::channel();
    app.start_extension("Test".to_string(), cancel_tx);
    for line in lines {
        app.push_extension_line("Test", false, line.to_string());
    }
    app.finish_extension_run("Test", true);
    app
}

fn scroll(app: &App) -> u16 {
    match app.mode {
        Mode::ExtensionOutput { scroll } => scroll,
        _ => panic!("expected ExtensionOutput mode"),
    }
}

#[test]
fn scroll_clamps_to_zero_minimum() {
    let mut app = app_with_lines(&["line1", "line2", "line3"]);
    app.scroll_extension_output(-100);
    assert_eq!(scroll(&app), 0);
}

#[test]
fn scroll_clamps_to_line_count_maximum() {
    let mut app = app_with_lines(&["line1", "line2", "line3"]);
    app.scroll_extension_output(i32::MAX);
    assert_eq!(scroll(&app), 3);
}

#[test]
fn scroll_works_while_running_against_lines_so_far() {
    let mut app = App::new();
    let (cancel_tx, _cancel_rx) = oneshot::channel();
    app.start_extension("Test".to_string(), cancel_tx);
    app.push_extension_line("Test", false, "line1".to_string());
    app.push_extension_line("Test", false, "line2".to_string());
    app.scroll_extension_output(100);
    assert_eq!(scroll(&app), 2);
    assert!(app.extension_running());
}

#[test]
fn reopening_output_view_does_not_lose_accumulated_lines() {
    let mut app = app_with_lines(&["line1", "line2"]);
    app.close_extension_output();
    assert!(matches!(app.mode, Mode::Normal));
    app.show_extension_output();
    let run = app.extension_run.as_ref().expect("run should persist");
    assert_eq!(run.lines.len(), 2);
    assert!(!run.running);
}

#[test]
fn cancelling_sends_signal_and_clears_handle() {
    let mut app = App::new();
    let (cancel_tx, mut cancel_rx) = oneshot::channel();
    app.start_extension("Test".to_string(), cancel_tx);
    app.cancel_running_extension();
    assert!(cancel_rx.try_recv().is_ok());
    // Calling again is a no-op (handle already consumed), not a panic.
    app.cancel_running_extension();
}

// ---------------------------------------------------------------------------
// Further behaviour of the browser state
// ---------------------------------------------------------------------------

fn issue_with(id: &str, identifier: &str, updated_at: &str, priority: i64, team: &str) -> Issue {
    let mut i = sample_issue(id, identifier, "state-todo", "Todo");
    i.updated_at = updated_at.to_string();
    i.priority = priority;
    i.team.name = team.to_string();
    i
}

fn ids(app: &App) -> Vec<String> {
    app.issues.iter().map(|i| i.id.clone()).collect()
}

#[test]
fn list_is_newest_first_and_priority_order_puts_none_last() {
    let mut app = App::new();
    app.set_issues(vec![
        issue_with("a", "SA-3", "2026-01-01", 0, "T"),
        issue_with("b", "SA-2", "2026-03-01", 3, "T"),
        issue_with("c", "SA-1", "2026-02-01", 1, "T"),
        issue_with("d", "SA-0", "2026-02-01", 3, "T"),
    ]);
    // Newest first; equal timestamps keep the order they came in.
    assert_eq!(ids(&app), vec!["b", "c", "d", "a"]);
    app.toggle_sort();
    assert_eq!(app.sort_key, SortKey::Priority);
    // Urgent(1), then Medium(3) by identifier, then None(0) last.
    assert_eq!(ids(&app), vec!["c", "d", "b", "a"]);
    app.toggle_sort();
    assert_eq!(app.sort_key, SortKey::Updated);
}

#[test]
fn filter_menu_team_editor_lists_sorted_distinct_teams_and_applies_choice() {
    let mut app = App::new();
    app.set_issues(vec![
        issue_with("a", "SA-1", "2026-01-01", 0, "Zeta"),
        issue_with("b", "SA-2", "2026-01-02", 0, "Alpha"),
        issue_with("c", "SA-3", "2026-01-03", 0, "Zeta"),
    ]);
    app.open_filter_menu();
    app.filter_menu_select();
    match &app.mode {
        Mode::Filter { kind, options, selected, checked } => {
            assert_eq!(*kind, FilterKind::Team);
            assert_eq!(options, &vec!["(All)".to_string(), "Alpha".to_string(), "Zeta".to_string()]);
            assert_eq!(*selected, 0);
            assert_eq!(checked, &vec![false, false, false]);
        }
        _ => panic!("expected Filter mode"),
    }
    app.filter_move(2);
    app.filter_confirm();
    assert_eq!(app.filters.team.as_deref(), Some("Zeta"));
    assert!(matches!(app.mode, Mode::FilterMenu { selected: 0 }));
    assert_eq!(ids(&app), vec!["c", "a"]);
    assert_eq!(app.filters.summary(FilterKind::Team), "Zeta");
    assert_eq!(app.list_title(), "Issues (2) | team: Zeta");
}

#[test]
fn status_editor_ticks_values_and_blocked_editor_roundtrips() {
    let mut app = App::new();
    let mut done = sample_issue("2", "SA-2", "s-done", "Done");
    done.updated_at = "2025-01-01".to_string();
    app.set_issues(vec![sample_issue("1", "SA-1", "s-todo", "Todo"), done]);
    app.open_filter_menu();
    app.filter_menu_move(2);
    app.filter_menu_select();
    app.filter_toggle();
    app.filter_confirm();
    assert_eq!(app.filters.status, vec!["Done".to_string()]);
    assert!(matches!(app.mode, Mode::FilterMenu { selected: 2 }));
    assert_eq!(ids(&app), vec!["2"]);
    assert_eq!(app.filters.summary(FilterKind::Status), "Done");

    app.filter_menu_move(1);
    app.filter_menu_select();
    app.filter_move(2);
    app.filter_confirm();
    assert_eq!(app.filters.blocked, Some(BlockedFilter::BlockedOnly));
    assert!(app.issues.is_empty());
    assert!(app.filters.is_active(FilterKind::Blocked));
    assert_eq!(app.filters.summary(FilterKind::Blocked), "Blocked only");

    app.clear_filters();
    assert_eq!(app.issues.len(), 2);
    assert!(!app.filters.is_active(FilterKind::Status));
}

#[test]
fn filter_menu_wraps_around_and_cancel_returns_to_its_row() {
    let mut app = App::new();
    app.open_filter_menu();
    app.filter_menu_move(-1);
    assert!(matches!(app.mode, Mode::FilterMenu { selected: 3 }));
    app.filter_menu_move(1);
    assert!(matches!(app.mode, Mode::FilterMenu { selected: 0 }));
    app.filter_menu_move(1);
    app.filter_menu_select();
    app.filter_cancel();
    assert!(matches!(app.mode, Mode::FilterMenu { selected: 1 }));
    app.filter_menu_cancel();
    assert!(matches!(app.mode, Mode::Normal));
}

#[test]
fn active_project_scopes_the_filters_on_every_load() {
    let mut app = App::new();
    app.set_active_project(Project {
        path: "/repos/va".to_string(),
        team: "Staging Assistant".to_string(),
        project: "backend".to_string(),
    });
    let mut in_project = sample_issue("1", "SA-1", "s", "Todo");
    in_project.project = Some(harness::linear::Project { name: "backend".to_string() });
    let other = sample_issue("2", "SA-2", "s", "Todo");
    app.set_issues(vec![in_project, other]);
    assert_eq!(app.filters.team.as_deref(), Some("Staging Assistant"));
    assert_eq!(app.filters.project.as_deref(), Some("backend"));
    assert_eq!(ids(&app), vec!["1"]);
    assert_eq!(app.project_root().as_deref(), Some("/repos/va"));
}

#[test]
fn selection_stops_at_both_ends_and_detail_scroll_is_clamped() {
    let mut app = App::new();
    let mut described = sample_issue("1", "SA-1", "s", "Todo");
    described.description = Some("one\ntwo\nthree".to_string());
    app.set_issues(vec![described, sample_issue("2", "SA-2", "s", "Todo")]);
    app.select_prev();
    assert_eq!(app.selected, 0);
    app.select_next();
    app.select_next();
    assert_eq!(app.selected, 1);
    app.select_prev();
    app.open_detail();
    assert!(matches!(app.mode, Mode::Detail));
    // 10 header lines + title + blank + 3 description lines.
    app.scroll_detail(i32::MAX);
    assert_eq!(app.detail_scroll, 15);
    app.scroll_detail(-3);
    assert_eq!(app.detail_scroll, 12);
    app.scroll_detail(i32::MIN);
    assert_eq!(app.detail_scroll, 0);
    app.close_detail();
    assert!(matches!(app.mode, Mode::Normal));
}

#[test]
fn blocked_issue_is_detected_only_for_open_blockers() {
    let mut issue = sample_issue("1", "SA-1", "s", "Todo");
    let relation = |kind: &str, state_type: &str| IssueRelation {
        relation_type: kind.to_string(),
        related_issue: RelatedIssue {
            state: State { id: "x".to_string(), name: "X".to_string(), state_type: state_type.to_string() },
        },
    };
    issue.inverse_relations.nodes = vec![relation("related", "started"), relation("blocks", "completed")];
    assert!(!issue.is_blocked());
    issue.inverse_relations.nodes.push(relation("blocks", "started"));
    assert!(issue.is_blocked());
    assert_eq!(issue.priority_rank(), 5);
    issue.priority = 2;
    assert_eq!(issue.priority_rank(), 2);
}

#[test]
fn status_picker_confirm_outside_picker_returns_nothing() {
    let mut app = App::new();
    assert!(app.status_picker_confirm().is_none());
    app.open_status_picker(vec![workflow_state("a", "A")]);
    assert!(matches!(app.mode, Mode::Normal));
    app.set_error("boom".to_string());
    assert!(matches!(app.load_state, harness::app::LoadState::Error(ref m) if m == "boom"));
}

#[test]
fn ticking_twice_restores_and_blocked_editor_keeps_its_value() {
    let mut app = App::new();
    app.set_issues(vec![sample_issue("1", "SA-1", "s", "Todo")]);
    app.open_filter_menu();
    app.filter_menu_move(2);
    app.filter_menu_select();
    app.filter_toggle();
    app.filter_toggle();
    match &app.mode {
        Mode::Filter { checked, .. } => assert_eq!(checked, &vec![false]),
        _ => panic!("expected Filter mode"),
    }
    app.filter_cancel();
    app.filters.blocked = Some(BlockedFilter::UnblockedOnly);
    app.filter_menu_move(1);
    app.filter_menu_select();
    match &app.mode {
        Mode::Filter { selected, options, .. } => {
            assert_eq!(*selected, 1);
            assert_eq!(options[*selected], "Unblocked only");
        }
        _ => panic!("expected Filter mode"),
    }
    app.filter_confirm();
    assert_eq!(app.filters.blocked, Some(BlockedFilter::UnblockedOnly));
    assert_eq!(app.issues.len(), 1);
}

#[test]
fn precondition_checks_report_what_would_overflow() {
    let mut app = App::new();
    assert!(app.detail_scroll_fits());
    app.mode = Mode::FilterMenu { selected: 1 };
    assert!(app.cursor_step_fits(1));
    assert!(!app.cursor_step_fits(i32::MAX));
    assert!(app.filter_menu_row_fits());
    app.mode = Mode::FilterMenu { selected: 4 };
    assert!(!app.filter_menu_row_fits());
}

#[test]
fn confirming_an_empty_status_picker_gives_no_selection() {
    let mut app = App::new();
    app.set_issues(vec![sample_issue("1", "SA-1", "s", "Todo")]);
    app.open_status_picker(Vec::new());
    assert!(app.status_picker_confirm().is_none());
    assert!(matches!(app.mode, Mode::Normal));
}

#[test]
fn reopening_and_confirming_the_status_editor_keeps_the_ticked_statuses() {
    let mut app = App::new();
    app.set_issues(vec![
        sample_issue("1", "SA-1", "s-todo", "Todo"),
        sample_issue("2", "SA-2", "s-done", "Done"),
        sample_issue("3", "SA-3", "s-prog", "In Progress"),
    ]);
    app.filters.status = vec!["Todo".to_string(), "Done".to_string()];
    app.open_filter_menu();
    app.filter_menu_move(2);
    app.filter_menu_select();
    app.filter_confirm();
    let mut kept = app.filters.status.clone();
    kept.sort();
    assert_eq!(kept, vec!["Done".to_string(), "Todo".to_string()]);
    assert!(matches!(app.mode, Mode::FilterMenu { selected: 2 }));
}

#[test]
fn detail_view_steps_to_next_and_previous_issue() {
    let mut app = App::new();
    app.set_issues(vec![
        sample_issue("1", "SA-1", "s", "Todo"),
        sample_issue("2", "SA-2", "s", "Todo"),
    ]);
    app.view_next_issue();
    assert_eq!(app.selected, 0);
    app.open_detail();
    app.detail_scroll = 3;
    app.view_next_issue();
    assert_eq!(app.selected, 1);
    assert_eq!(app.detail_scroll, 0);
    assert!(matches!(app.mode, Mode::Detail));
    app.view_next_issue();
    assert_eq!(app.selected, 1);
    app.view_prev_issue();
    assert_eq!(app.selected, 0);
    app.view_prev_issue();
    assert_eq!(app.selected, 0);
    assert!(matches!(app.mode, Mode::Detail));
}
