//! Tests of the Markdown and CSV backlog importers.

use vikunja_rust_mcp::transfer::import::{
    parse_csv, parse_markdown, ParseIssue, ParsedTask, RowResult,
};

fn ok(rows: &[RowResult]) -> Vec<&ParsedTask> {
    rows.iter().filter_map(|row| row.as_ref().ok()).collect()
}

fn issues(rows: &[RowResult]) -> Vec<&ParseIssue> {
    rows.iter().filter_map(|row| row.as_ref().err()).collect()
}

// ----- Markdown ---------------------------------------------------------

#[test]
fn markdown_parses_simple_checklist() {
    let rows = parse_markdown("- [ ] First\n- [x] Second\n- [X] Third\n");
    let tasks = ok(&rows);
    assert_eq!(tasks.len(), 3);
    assert_eq!(tasks[0].title, "First");
    assert_eq!(tasks[0].line, 1);
    assert_eq!(tasks[1].title, "Second");
    assert_eq!(tasks[2].title, "Third");
    assert!(issues(&rows).is_empty());
    assert!(tasks.iter().all(|t| t.description.is_none()));
}

#[test]
fn markdown_attaches_indented_description_lines() {
    let rows = parse_markdown("- [ ] Plan\n  line one\n\tline two\n- [ ] Next\n");
    let tasks = ok(&rows);
    assert_eq!(tasks.len(), 2);
    assert_eq!(tasks[0].description.as_deref(), Some("line one\nline two"));
    assert_eq!(tasks[1].description, None);
}

#[test]
fn markdown_ignores_blank_lines_and_headings() {
    let rows = parse_markdown("# Backlog\n\n- [ ] Only task\n\n## Notes\n");
    let tasks = ok(&rows);
    assert_eq!(tasks.len(), 1);
    assert_eq!(tasks[0].title, "Only task");
    assert_eq!(tasks[0].line, 3);
    assert!(issues(&rows).is_empty());
}

#[test]
fn markdown_flags_empty_titles() {
    let rows = parse_markdown("- [ ]   \n");
    let problems = issues(&rows);
    assert_eq!(problems.len(), 1);
    assert_eq!(problems[0].line, 1);
    assert!(problems[0].message.contains("title"), "{problems:?}");
}

#[test]
fn markdown_flags_unrecognized_lines() {
    let rows = parse_markdown("- [ ] Fine\njust prose\n* [ ] wrong bullet\n");
    let problems = issues(&rows);
    assert_eq!(problems.len(), 2);
    assert_eq!(problems[0].line, 2);
    assert!(problems[0].message.contains("- [ ]"), "{problems:?}");
    assert_eq!(problems[1].line, 3);
}

#[test]
fn markdown_flags_indented_line_without_task() {
    let rows = parse_markdown("  floating description\n- [ ] Task\n");
    let problems = issues(&rows);
    assert_eq!(problems.len(), 1);
    assert_eq!(problems[0].line, 1);
    assert_eq!(ok(&rows).len(), 1);
}

#[test]
fn markdown_of_empty_input_yields_no_rows() {
    assert!(parse_markdown("").is_empty());
    assert!(parse_markdown("\n\n").is_empty());
}

// ----- CSV --------------------------------------------------------------

#[test]
fn csv_parses_all_supported_columns() {
    let rows = parse_csv(
        "title,description,due_date,priority\n\
         Write docs,Body text,2026-07-01T12:00:00Z,3\n\
         Minimal,,,\n",
    )
    .unwrap();
    let tasks = ok(&rows);
    assert_eq!(tasks.len(), 2);
    assert_eq!(tasks[0].title, "Write docs");
    assert_eq!(tasks[0].description.as_deref(), Some("Body text"));
    assert_eq!(tasks[0].due_date.as_deref(), Some("2026-07-01T12:00:00Z"));
    assert_eq!(tasks[0].priority, Some(3));
    assert_eq!(tasks[0].line, 2);
    assert_eq!(tasks[1].title, "Minimal");
    assert_eq!(tasks[1].description, None);
    assert_eq!(tasks[1].due_date, None);
    assert_eq!(tasks[1].priority, None);
}

#[test]
fn csv_whitespace_only_description_means_none() {
    let rows = parse_csv("title,description\nTask,\"   \"\n").unwrap();
    assert_eq!(ok(&rows)[0].description, None);
}

#[test]
fn csv_title_only_header_is_enough() {
    let rows = parse_csv("title\nJust a title\n").unwrap();
    assert_eq!(ok(&rows)[0].title, "Just a title");
}

#[test]
fn csv_handles_quoted_fields() {
    let rows = parse_csv(
        "title,description\n\
         \"Comma, in title\",\"He said \"\"hi\"\"\nover two lines\"\n\
         After,plain\n",
    )
    .unwrap();
    let tasks = ok(&rows);
    assert_eq!(tasks.len(), 2);
    assert_eq!(tasks[0].title, "Comma, in title");
    assert_eq!(
        tasks[0].description.as_deref(),
        Some("He said \"hi\"\nover two lines")
    );
    assert_eq!(tasks[1].title, "After");
    assert_eq!(tasks[1].line, 4, "multi-line field shifts later rows");
}

#[test]
fn csv_quoted_fields_normalize_crlf_to_newline() {
    // Excel-style CSV: CRLF both as record separator and inside quoted
    // multi-line cells. No carriage returns may leak into values.
    let rows = parse_csv("title,description\r\nTask,\"line one\r\nline two\"\r\n").unwrap();
    let tasks = ok(&rows);
    assert_eq!(tasks[0].description.as_deref(), Some("line one\nline two"));
}

#[test]
fn csv_accepts_crlf_line_endings() {
    let rows = parse_csv("title,priority\r\nTask A,1\r\nTask B,\r\n").unwrap();
    let tasks = ok(&rows);
    assert_eq!(tasks.len(), 2);
    assert_eq!(tasks[0].title, "Task A");
    assert_eq!(tasks[0].priority, Some(1));
    assert_eq!(tasks[1].priority, None);
}

#[test]
fn csv_requires_title_column() {
    let err = parse_csv("description,priority\nno title here,1\n").unwrap_err();
    assert!(err.contains("title"), "{err}");
}

#[test]
fn csv_rejects_unknown_columns() {
    let err = parse_csv("title,labels\nTask,urgent\n").unwrap_err();
    assert!(err.contains("labels"), "{err}");
    let err = parse_csv("title,Due Date\nTask,tomorrow\n").unwrap_err();
    assert!(
        err.contains("due date") || err.contains("Due Date"),
        "{err}"
    );
}

#[test]
fn csv_rejects_duplicate_columns() {
    let err = parse_csv("title,title\nTask,Again\n").unwrap_err();
    assert!(err.contains("title"), "{err}");
}

#[test]
fn csv_rejects_empty_input_and_missing_rows_are_fine() {
    assert!(parse_csv("").is_err());
    assert!(parse_csv("   \n").is_err());
    // A header with no data rows is valid and yields no rows.
    let rows = parse_csv("title\n").unwrap();
    assert!(rows.is_empty());
}

#[test]
fn csv_flags_empty_titles_per_row() {
    let rows = parse_csv("title,priority\n,3\nReal task,2\n").unwrap();
    let problems = issues(&rows);
    assert_eq!(problems.len(), 1);
    assert_eq!(problems[0].line, 2);
    assert!(problems[0].message.contains("title"), "{problems:?}");
    assert_eq!(ok(&rows).len(), 1);
}

#[test]
fn csv_flags_invalid_priorities_per_row() {
    let rows = parse_csv("title,priority\nA,high\nB,6\nC,-1\nD,5\n").unwrap();
    let problems = issues(&rows);
    assert_eq!(problems.len(), 3);
    assert!(
        problems.iter().all(|p| p.message.contains("priority")),
        "{problems:?}"
    );
    assert_eq!(problems[0].line, 2);
    assert_eq!(problems[1].line, 3);
    assert_eq!(problems[2].line, 4);
    assert_eq!(ok(&rows)[0].priority, Some(5));
}

#[test]
fn csv_flags_field_count_mismatch_per_row() {
    let rows = parse_csv("title,priority\nA,1,extra\nB\nC,2\n").unwrap();
    let problems = issues(&rows);
    assert_eq!(problems.len(), 2);
    assert!(problems[0].message.contains("2 columns"), "{problems:?}");
    assert_eq!(ok(&rows).len(), 1);
}

#[test]
fn csv_rejects_unterminated_quotes() {
    let err = parse_csv("title\n\"never closed\n").unwrap_err();
    assert!(err.contains("quote"), "{err}");
}

#[test]
fn csv_skips_blank_lines() {
    let rows = parse_csv("title\n\nTask A\n\n").unwrap();
    assert_eq!(ok(&rows).len(), 1);
}

#[test]
fn csv_all_empty_rows_are_reported_not_skipped() {
    // A `,`-only line is a data row with empty fields (RFC 4180), not a
    // blank line: it must surface as a row error, not vanish.
    let rows = parse_csv("title,priority\n,\nReal,1\n").unwrap();
    let problems = issues(&rows);
    assert_eq!(problems.len(), 1);
    assert_eq!(problems[0].line, 2);
    assert!(problems[0].message.contains("title"), "{problems:?}");
    assert_eq!(ok(&rows).len(), 1);

    // Wrong column count of an all-empty row is reported too.
    let rows = parse_csv("title\n,,\nReal\n").unwrap();
    let problems = issues(&rows);
    assert_eq!(problems.len(), 1);
    assert!(problems[0].message.contains("1 column"), "{problems:?}");
}

fn row_line(row: &RowResult) -> usize {
    match row {
        Ok(t) => t.line,
        Err(e) => e.line,
    }
}

#[test]
fn markdown_rows_follow_the_line_order() {
    let rows = parse_markdown("# Plan\n- [ ] One\n  detail\nstray\n  orphan\n- [x] Two\n- [ ]  \n");
    let lines: Vec<usize> = rows.iter().map(row_line).collect();
    assert_eq!(lines, vec![2, 4, 5, 6, 7]);
    for row in rows.iter().flatten() {
        assert!(!row.title.is_empty());
        assert!(row.due_date.is_none() && row.priority.is_none());
    }
}

#[test]
fn csv_rows_carry_their_record_lines_and_valid_fields() {
    let rows = parse_csv("title,priority,due_date\nA,5,\n\"B\nstill B\",,tomorrow\nC,9,\n").unwrap();
    let lines: Vec<usize> = rows.iter().map(row_line).collect();
    assert_eq!(lines, vec![2, 3, 5]);
    assert_eq!(rows[0].as_ref().unwrap().priority, Some(5));
    assert_eq!(rows[1].as_ref().unwrap().due_date.as_deref(), Some("tomorrow"));
    assert!(rows[2].is_err());
    assert!(parse_csv("").is_err());
    assert!(parse_csv("title,title\n").is_err());
    assert!(parse_csv("description\nx\n").is_err());
    assert!(parse_csv("title\n\"open\n").is_err());
}

#[test]
fn csv_header_cells_and_values_are_trimmed() {
    let rows = parse_csv(" title , due_date \n  Alpha  ,  tomorrow  \n\n   \nBeta,\n").unwrap();
    let lines: Vec<usize> = rows.iter().map(row_line).collect();
    assert_eq!(lines, vec![2, 5]);
    let first = rows[0].as_ref().unwrap();
    assert_eq!(first.title, "Alpha");
    assert_eq!(first.due_date.as_deref(), Some("tomorrow"));
    assert_eq!(rows[1].as_ref().unwrap().due_date, None);
    assert!(parse_csv("   \n\n").is_err());
    assert!(parse_csv("title, Title \n").is_err());
    assert!(parse_csv("title,labels\n").is_err());
}
