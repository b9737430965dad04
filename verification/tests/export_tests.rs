//! Tests of the Markdown and CSV exporters.

use vikunja_rust_mcp::transfer::export::{
    csv_field, project_to_markdown, set_date, sort_by_id, sort_names, tasks_to_csv,
    tasks_to_markdown, ExportProject, ExportTask, ProjectSnapshot, TaskSnapshot, UNSET_DATE,
};
use vikunja_rust_mcp::transfer::import::{parse_markdown, ParsedTask};
use vikunja_rust_mcp::transfer::ExportFormat;

fn task(id: i64, title: &str) -> ExportTask {
    ExportTask {
        id,
        identifier: format!("T-{id}"),
        title: title.to_string(),
        description: String::new(),
        done: false,
        due_date: None,
        start_date: None,
        end_date: None,
        priority: 0,
        percent_done: "0".to_string(),
        project_id: 4,
        labels: Vec::new(),
        assignees: Vec::new(),
    }
}

#[test]
fn sort_by_id_orders_ascending() {
    let mut tasks = vec![task(3, "c"), task(1, "a"), task(2, "b")];
    sort_by_id(&mut tasks);
    let ids: Vec<i64> = tasks.iter().map(|t| t.id).collect();
    assert_eq!(ids, vec![1, 2, 3]);
}

#[test]
fn sort_by_id_is_stable() {
    let mut tasks = vec![task(2, "first"), task(1, "x"), task(2, "second")];
    sort_by_id(&mut tasks);
    let titles: Vec<&str> = tasks.iter().map(|t| t.title.as_str()).collect();
    assert_eq!(titles, vec!["x", "first", "second"]);
}

#[test]
fn markdown_export_renders_checklist_with_descriptions() {
    let mut done = task(2, "Ship it");
    done.done = true;
    let mut described = task(1, "Plan");
    described.description = "line one\nline two".to_string();
    let markdown = tasks_to_markdown(&[described, done]);
    assert_eq!(markdown, "- [ ] Plan\n  line one\n  line two\n- [x] Ship it\n");
}

#[test]
fn markdown_export_skips_blank_description_lines() {
    let mut described = task(1, "Plan");
    described.description = "a\r\n   \n\nb".to_string();
    assert_eq!(tasks_to_markdown(&[described]), "- [ ] Plan\n  a\n  b\n");
}

#[test]
fn markdown_export_of_no_tasks_is_empty() {
    assert_eq!(tasks_to_markdown(&[]), "");
}

#[test]
fn csv_export_escapes_and_joins() {
    let mut tricky = task(1, "Title, with comma");
    tricky.description = "say \"hi\"\nsecond line".to_string();
    tricky.due_date = Some("2026-07-01T12:00:00Z".to_string());
    tricky.priority = 5;
    tricky.percent_done = "0.5".to_string();
    tricky.labels = vec!["a".to_string(), "b".to_string()];
    tricky.assignees = vec!["ada".to_string()];
    let csv = tasks_to_csv(&[tricky]);
    let mut lines = csv.splitn(2, '\n');
    assert_eq!(
        lines.next().unwrap(),
        "id,identifier,title,description,done,due_date,start_date,end_date,priority,percent_done,project_id,labels,assignees"
    );
    assert_eq!(
        lines.next().unwrap(),
        "1,T-1,\"Title, with comma\",\"say \"\"hi\"\"\nsecond line\",false,2026-07-01T12:00:00Z,,,5,0.5,4,a|b,ada\n"
    );
}

#[test]
fn csv_export_of_no_tasks_is_header_only() {
    let csv = tasks_to_csv(&[]);
    assert_eq!(csv.lines().count(), 1);
    assert!(csv.ends_with('\n'));
}

#[test]
fn csv_fields_are_quoted_only_when_needed() {
    assert_eq!(csv_field("plain"), "plain");
    assert_eq!(csv_field("a,b"), "\"a,b\"");
    assert_eq!(csv_field("x\ry"), "\"x\ry\"");
    assert_eq!(csv_field("\"q\""), "\"\"\"q\"\"\"");
}

#[test]
fn project_markdown_renders_heading_description_and_tasks() {
    let project = ExportProject {
        id: 4,
        identifier: String::new(),
        title: "Backlog".to_string(),
        description: "Quarterly plan".to_string(),
        is_archived: false,
        parent_project_id: 0,
    };
    assert_eq!(project_to_markdown(&project, None), "# Backlog\n\nQuarterly plan\n");
    assert_eq!(
        project_to_markdown(&project, Some(&[task(1, "One")])),
        "# Backlog\n\nQuarterly plan\n\n## Tasks\n\n- [ ] One\n"
    );
    let plain = ExportProject { description: String::new(), ..project };
    assert_eq!(project_to_markdown(&plain, None), "# Backlog\n");
}

#[test]
fn unset_dates_are_dropped() {
    assert_eq!(set_date(Some("2026-07-01T12:00:00Z")), Some("2026-07-01T12:00:00Z".to_string()));
    assert_eq!(set_date(Some(UNSET_DATE)), None);
    assert_eq!(set_date(Some("")), None);
    assert_eq!(set_date(None), None);
}

#[test]
fn export_format_names_are_lowercase() {
    assert_eq!(ExportFormat::Json.as_str(), "json");
    assert_eq!(ExportFormat::Markdown.as_str(), "markdown");
    assert_eq!(ExportFormat::Csv.as_str(), "csv");
}

#[test]
fn from_task_normalizes_dates_and_sorts_names() {
    let raw = TaskSnapshot {
        id: 7,
        identifier: "DOCS-7".to_string(),
        title: "Write docs".to_string(),
        description: "body".to_string(),
        done: true,
        due_date: Some("2026-07-01T12:00:00Z".to_string()),
        start_date: Some(UNSET_DATE.to_string()),
        end_date: Some(String::new()),
        priority: 3,
        percent_done: "0.5".to_string(),
        project_id: 4,
        labels: Some(vec!["zeta".to_string(), "alpha".to_string()]),
        assignees: Some(vec!["zoe".to_string(), "ada".to_string()]),
    };
    let export = ExportTask::from_task(&raw);
    assert_eq!(export.id, 7);
    assert_eq!(export.due_date.as_deref(), Some("2026-07-01T12:00:00Z"));
    assert_eq!(export.start_date, None, "zero date must become None");
    assert_eq!(export.end_date, None, "empty date must become None");
    assert_eq!(export.labels, vec!["alpha", "zeta"]);
    assert_eq!(export.assignees, vec!["ada", "zoe"]);
    assert!(export.done);
    assert_eq!(export.priority, 3);
}

#[test]
fn from_task_without_labels_or_assignees_exports_empty_lists() {
    let raw = TaskSnapshot {
        id: 1,
        identifier: String::new(),
        title: "t".to_string(),
        description: String::new(),
        done: false,
        due_date: None,
        start_date: None,
        end_date: None,
        priority: 0,
        percent_done: "0".to_string(),
        project_id: 2,
        labels: None,
        assignees: None,
    };
    let export = ExportTask::from_task(&raw);
    assert!(export.labels.is_empty());
    assert!(export.assignees.is_empty());
    assert_eq!(export.due_date, None);
}

#[test]
fn sort_names_orders_by_character_and_keeps_duplicates() {
    let mut names = vec![
        "beta".to_string(),
        "Alpha".to_string(),
        "alpha".to_string(),
        "beta".to_string(),
        "".to_string(),
        "al".to_string(),
    ];
    sort_names(&mut names);
    assert_eq!(names, vec!["", "Alpha", "al", "alpha", "beta", "beta"]);
}

#[test]
fn export_project_from_project_copies_fields() {
    let raw = ProjectSnapshot {
        id: 4,
        title: "Backlog".to_string(),
        description: "d".to_string(),
        identifier: "BL".to_string(),
        is_archived: true,
        parent_project_id: 2,
    };
    let export = ExportProject::from_project(&raw);
    assert_eq!(export.id, 4);
    assert_eq!(export.identifier, "BL");
    assert!(export.is_archived);
    assert_eq!(export.parent_project_id, 2);
    assert_eq!(export.title, "Backlog");
    assert_eq!(export.description, "d");
}

#[test]
fn markdown_export_parses_back_to_the_same_tasks() {
    let mut first = task(1, "Write plan");
    first.description = "  step one \n\n step two".to_string();
    let mut second = task(2, "Ship it");
    second.done = true;
    let third = task(3, "Celebrate");
    let markdown = tasks_to_markdown(&[first, second, third]);
    let rows = parse_markdown(&markdown);
    assert_eq!(
        rows,
        vec![
            Ok(ParsedTask {
                line: 1,
                title: "Write plan".to_string(),
                description: Some("step one\nstep two".to_string()),
                due_date: None,
                priority: None,
            }),
            Ok(ParsedTask {
                line: 4,
                title: "Ship it".to_string(),
                description: None,
                due_date: None,
                priority: None,
            }),
            Ok(ParsedTask {
                line: 5,
                title: "Celebrate".to_string(),
                description: None,
                due_date: None,
                priority: None,
            }),
        ]
    );
}

#[test]
fn markdown_export_round_trip_ignores_carriage_returns() {
    let mut only = task(1, "Windows notes");
    only.description = "first\r\n second\r".to_string();
    let rows = parse_markdown(&tasks_to_markdown(&[only]));
    assert_eq!(
        rows,
        vec![Ok(ParsedTask {
            line: 1,
            title: "Windows notes".to_string(),
            description: Some("first\nsecond".to_string()),
            due_date: None,
            priority: None,
        })]
    );
}
