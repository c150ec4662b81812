use harness::linear::{pick_team_project, response_outcome, ApiError, ProjectWithId, TeamWithProjects, create_outcome, update_outcome};
use harness::paths::ConfigError;
use harness::text::{
    i64_to_string, join, line_count, lines_of, replace, repeated, sorted_unique, split, str_lt,
    trimmed, u64_to_string,
};
use harness::ui::{priority_color, priority_label};
use harness::style::Color;
use harness::linear::{Issue, RelationConnection, State, Team};

#[test]
fn string_helpers_match_std() {
    assert_eq!(replace("aXbXX", "X", "yy"), "ayybyyyy");
    assert_eq!(replace("aaa", "aa", "b"), "ba");
    assert_eq!(join(&vec!["a".to_string(), "b".to_string()], ", "), "a, b");
    assert_eq!(join(&vec![], ", "), "");
    assert_eq!(trimmed("\u{3000} x y\t\n"), "x y");
    assert_eq!(lines_of("a\r\nb\n\nc\n"), vec!["a", "b", "", "c"]);
    assert_eq!(line_count("a\nb"), 2);
    assert_eq!(line_count(""), 0);
    assert_eq!(split("a\n\nb\n", '\n'), vec!["a", "", "b", ""]);
    assert_eq!(u64_to_string(0), "0");
    assert_eq!(u64_to_string(1907), "1907");
    assert_eq!(i64_to_string(-42), "-42");
    assert_eq!(i64_to_string(i64::MIN), i64::MIN.to_string());
    assert_eq!(repeated("ab", 3), "ababab");
    assert!(str_lt("ab", "b"));
    assert!(str_lt("a", "ab"));
    assert!(!str_lt("b", "b"));
    assert_eq!(
        sorted_unique(&vec!["b".to_string(), "a".to_string(), "b".to_string()]),
        vec!["a".to_string(), "b".to_string()]
    );
}

#[test]
fn priorities_have_names_and_colors() {
    assert_eq!(priority_label(1), "Urgent");
    assert_eq!(priority_label(4), "Low");
    assert_eq!(priority_label(0), "None");
    assert_eq!(priority_color(2), Color::Yellow);
    assert_eq!(priority_color(7), Color::DarkGray);
}

#[test]
fn api_responses_are_interpreted() {
    let ok: Result<u8, ApiError> = response_outcome(200, Some(7u8), None);
    assert!(matches!(ok, Ok(7)));
    let errs = response_outcome::<u8>(200, Some(1), Some(vec!["a".to_string(), "b".to_string()]));
    let e = errs.unwrap_err();
    assert_eq!(e.message(), "Linear API error(s): a; b");
    let status = response_outcome::<u8>(404, Some(1), None).unwrap_err();
    assert_eq!(status.message(), "Linear API request failed with status 404 Not Found");
    let odd = response_outcome::<u8>(599, None, None).unwrap_err();
    assert_eq!(odd.message(), "Linear API request failed with status 599 <unknown status code>");
    let none = response_outcome::<u8>(204, None, None).unwrap_err();
    assert_eq!(none.message(), "Linear API response had no data");
    assert!(update_outcome(true).is_ok());
    assert_eq!(update_outcome(false).unwrap_err().message(), "Linear API reported failure updating issue status");
    assert_eq!(create_outcome(false, None).unwrap_err().message(), "Linear API reported failure creating issue");
    assert_eq!(create_outcome(true, None).unwrap_err().message(), "Linear API did not return the created issue");
    assert_eq!(ConfigError::NoHomeDirectory.message(), "could not determine home directory");
}

#[test]
fn team_and_project_ids_are_resolved() {
    let teams = vec![TeamWithProjects {
        id: "t1".to_string(),
        projects: vec![
            ProjectWithId { id: "p1".to_string(), name: "web".to_string() },
            ProjectWithId { id: "p2".to_string(), name: "backend".to_string() },
        ],
    }];
    let (team, project) = pick_team_project(teams.clone(), "Team", Some("backend")).unwrap();
    assert_eq!((team.as_str(), project.as_deref()), ("t1", Some("p2")));
    let (team, project) = pick_team_project(teams.clone(), "Team", None).unwrap();
    assert_eq!((team.as_str(), project), ("t1", None));
    let missing = pick_team_project(teams, "Team", Some("ops")).unwrap_err();
    assert_eq!(missing.message(), "no project named 'ops' in team 'Team'");
    let no_team = pick_team_project(vec![], "Nope", None).unwrap_err();
    assert_eq!(no_team.message(), "no Linear team named 'Nope'");
}

#[test]
fn list_rows_detail_lines_and_popups() {
    let mut issue = Issue {
        id: "1".to_string(),
        identifier: "SA-1".to_string(),
        title: "Fix".to_string(),
        priority: 1,
        state: State { id: "s".to_string(), name: "Todo".to_string(), state_type: "unstarted".to_string() },
        team: Team { id: "t".to_string(), name: "Team".to_string(), key: "SA".to_string() },
        project: None,
        updated_at: "2026".to_string(),
        url: "u".to_string(),
        description: Some("**hi**".to_string()),
        assignee: None,
        inverse_relations: RelationConnection { nodes: Vec::new() },
    };
    let row = harness::ui::issue_row(&issue);
    let texts: Vec<&str> = row.spans.iter().map(|s| s.content.as_str()).collect();
    assert_eq!(texts, vec!["  ", "SA-1    ", "Fix"]);
    assert_eq!(harness::ui::padded("LONGER-ID-1", 8), "LONGER-ID-1");
    let detail = harness::ui::issue_detail(&issue);
    let flat: Vec<String> = detail.iter().map(|l| l.spans.iter().map(|s| s.content.as_str()).collect()).collect();
    assert_eq!(
        flat,
        vec![
            "Title: Fix", "ID: SA-1", "Team: Team (SA)", "Assignee: Unassigned",
            "State: Todo [unstarted]", "Priority: Urgent", "Updated: 2026", "URL: u", "",
            "Description:", "", "hi",
        ]
    );
    assert_eq!(detail[5].spans[1].style.fg, Some(Color::Red));
    issue.description = None;
    assert_eq!(harness::ui::issue_detail(&issue).len(), 9);
    assert_eq!(harness::ui::popup_size(3, 100, 40), (5, 50));
    assert_eq!(harness::ui::popup_size(0, 10, 1), (3, 20));
    let rows = harness::ui::filter_rows(
        harness::filters::FilterKind::Status,
        &vec!["A".to_string(), "B".to_string()],
        &vec![true],
    );
    assert_eq!(rows, vec!["[x] A".to_string(), "[ ] B".to_string()]);
    assert_eq!(
        harness::ui::filter_menu_row(&harness::filters::Filters::new(), harness::filters::FilterKind::Team),
        "Team: All"
    );
    assert_eq!(harness::ui::footer(&harness::app::Mode::Detail), "j/k: next/prev issue   d/u: page   g/G: top/bottom   s: status   esc: back");
}

#[test]
fn only_the_cursor_row_is_highlighted() {
    let on = harness::ui::row_style(2, 2);
    assert_eq!(on.fg, Some(Color::Black));
    assert_eq!(on.bg, Some(Color::White));
    assert!(on.bold);
    let off = harness::ui::row_style(1, 2);
    assert_eq!(off.fg, None);
    assert_eq!(off.bg, None);
    assert!(!off.bold);
    assert_eq!(harness::ui::popup_size(65536 + 3, 100, 40), (5, 50));
    assert_eq!(harness::ui::footer(&harness::app::Mode::Detail).split("   ").next(), Some("j/k: next/prev issue"));
}
