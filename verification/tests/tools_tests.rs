//! Tests of tool argument validation, request building and bulk results.

use vikunja_rust_mcp::dates::{DateConfig, ReferenceDay, TimeOfDay, TodayAt};
use vikunja_rust_mcp::error::{ApiErrorKind, Error, ErrorBody, McpErrorCode};
use vikunja_rust_mcp::mcp::tools::{
    auto_page_cap, build_reminder, bulk_item_result, check_upload, decode_upload,
    inline_download_error, label_added_message, list_plan, newest_attachment_named,
    oversized_upload, page_params, positive, relation_pair, resolved_date, upload_file_name,
    user_assigned_message, validate_date_target, validate_filter_expression, validate_sort_order,
    validate_task_ids, AttachmentsUploadArgs, AutoPagination, BulkItemError, BulkOperationResult,
    BulkOutcome, DateValue, FiltersUpdateArgs, ListPlan, ProjectsCreateArgs, ReminderInput,
    ReminderRelativeTo, ReminderValue, UploadSource, MAX_BULK_TASK_IDS,
};
use vikunja_rust_mcp::mcp::tools::{
    bucket_flags, first_kanban_view, BucketsListArgs, ProjectViewsListArgs, ViewListing,
};
use vikunja_rust_mcp::vikunja::models::{FileMeta, TaskAttachment};
use vikunja_rust_mcp::vikunja::pagination::{BoundedPage, PageInfo, PageParams};

fn message(err: Error) -> String {
    err.to_mcp().message
}

#[test]
fn bulk_item_error_maps_api_errors_with_status_and_code() {
    let err = Error::Api {
        endpoint: "tasks.update",
        status: 404,
        kind: ApiErrorKind::NotFound,
        code: Some(4002),
        message: "The task does not exist.".to_string(),
    };
    let detail = BulkItemError::from_error(&err);
    assert_eq!(detail.kind, "not_found");
    assert_eq!(detail.http_status, Some(404));
    assert_eq!(detail.vikunja_error_code, Some(4002));
    assert!(detail.message.contains("does not exist"));
}

#[test]
fn bulk_item_error_covers_every_api_kind() {
    for (status, expected) in [
        (401u16, "auth"),
        (403, "forbidden"),
        (404, "not_found"),
        (400, "validation"),
        (412, "validation"),
        (422, "validation"),
        (429, "rate_limited"),
        (500, "server"),
        (418, "other"),
    ] {
        let detail = BulkItemError::from_error(&Error::from_status("tasks.update", status, None, b""));
        assert_eq!(detail.kind, expected, "status {status}");
        assert_eq!(detail.http_status, Some(status));
    }
}

#[test]
fn bulk_item_error_maps_non_api_errors_without_status() {
    let cases: Vec<(Error, &str)> = vec![
        (Error::Network { endpoint: "tasks.update", detail: "connection failed".to_string() }, "network"),
        (Error::Timeout { endpoint: "tasks.update" }, "timeout"),
        (
            Error::InvalidResponse { endpoint: "tasks.update", detail: "expected JSON".to_string() },
            "invalid_response",
        ),
        (Error::Io { detail: "permission denied".to_string() }, "io"),
        (Error::TooLarge { endpoint: "attachments.download", size: Some(5), limit: 2 }, "too_large"),
        (Error::InvalidArgument("nope".to_string()), "invalid_argument"),
    ];
    for (err, expected) in cases {
        let detail = BulkItemError::from_error(&err);
        assert_eq!(detail.kind, expected);
        assert_eq!(detail.http_status, None);
        assert_eq!(detail.vikunja_error_code, None);
        assert!(!detail.message.is_empty());
    }
}

#[test]
fn validate_filter_expression_accepts_well_formed_expressions() {
    for expression in [
        "done = false",
        "(done = false) && priority >= 3",
        "title ~ 'has (parens) inside'",
        "title ~ \"it's quoted\"",
        "due_date < now/d+7d",
    ] {
        assert!(validate_filter_expression("filter", expression).is_ok(), "{expression} should validate");
    }
}

#[test]
fn validate_filter_expression_rejects_malformed_expressions() {
    for (expression, expected) in [
        ("", "empty"),
        ("   ", "empty"),
        ("(done = false", "parenthes"),
        ("done = false)", "parenthes"),
        ("((done = false) && x = 1", "parenthes"),
        ("title ~ 'unterminated", "quote"),
        ("title ~ \"unterminated", "quote"),
    ] {
        let err = validate_filter_expression("filter", expression).unwrap_err().to_mcp();
        assert_eq!(err.code, McpErrorCode::InvalidParams);
        assert!(err.message.contains(expected), "{expression:?}: expected '{expected}' in '{}'", err.message);
    }
}

#[test]
fn validate_sort_order_checks_lengths_and_directions() {
    let fields = |items: &[&str]| items.iter().map(ToString::to_string).collect::<Vec<_>>();
    assert!(validate_sort_order(None, None).is_ok());
    assert!(validate_sort_order(Some(&fields(&["due_date"])), None).is_ok());
    assert!(validate_sort_order(Some(&fields(&["due_date"])), Some(&fields(&["asc"]))).is_ok());
    assert!(validate_sort_order(Some(&fields(&["due_date", "id"])), Some(&fields(&["asc", "desc"]))).is_ok());
    let mismatch =
        validate_sort_order(Some(&fields(&["due_date", "id"])), Some(&fields(&["asc"]))).unwrap_err();
    assert!(message(mismatch).contains("same number"));
    let bad_direction = validate_sort_order(None, Some(&fields(&["upward"]))).unwrap_err();
    let text = message(bad_direction);
    assert!(text.contains("'asc' or 'desc'"));
    assert!(text.contains("\"upward\""));
}

#[test]
fn validate_task_ids_accepts_positive_ids_only() {
    assert!(validate_task_ids(&[1, 2, 3]).is_ok());
    assert!(validate_task_ids(&[]).is_err());
    assert!(validate_task_ids(&[0]).is_err());
    assert!(validate_task_ids(&[5, -1]).is_err());
}

#[test]
fn validate_task_ids_enforces_batch_cap() {
    let at_cap: Vec<i64> = (1..=MAX_BULK_TASK_IDS as i64).collect();
    assert!(validate_task_ids(&at_cap).is_ok());
    let over_cap: Vec<i64> = (1..=MAX_BULK_TASK_IDS as i64 + 1).collect();
    let err = validate_task_ids(&over_cap).unwrap_err().to_mcp();
    assert_eq!(err.code, McpErrorCode::InvalidParams);
    assert!(err.message.contains("task_ids"));
    assert!(err.message.contains(&MAX_BULK_TASK_IDS.to_string()));
    assert!(err.message.contains("101"));
}

#[test]
fn ids_and_pages_are_validated() {
    assert_eq!(positive("task_id", 7).unwrap(), 7);
    assert!(message(positive("task_id", 0).unwrap_err()).contains("task_id must be a positive integer"));
    assert!(page_params(Some(0), None).is_err());
    assert!(page_params(None, Some(0)).is_err());
    assert_eq!(page_params(Some(2), Some(10)).unwrap(), PageParams::new(Some(2), Some(10)));
    assert_eq!(relation_pair(1, 2).unwrap(), (1, 2));
    assert!(message(relation_pair(3, 3).unwrap_err()).contains("different tasks"));
    assert!(message(relation_pair(3, -1).unwrap_err()).contains("other_task_id"));
}

#[test]
fn auto_pagination_arguments_are_checked() {
    assert_eq!(auto_page_cap(None, None, None).unwrap(), None);
    assert_eq!(auto_page_cap(None, Some(true), None).unwrap(), Some(10));
    assert_eq!(auto_page_cap(None, Some(true), Some(50)).unwrap(), Some(50));
    assert!(message(auto_page_cap(None, Some(false), Some(3)).unwrap_err()).contains("requires auto_paginate"));
    assert!(message(auto_page_cap(Some(2), Some(true), None).unwrap_err()).contains("page cannot be combined"));
    assert!(message(auto_page_cap(None, Some(true), Some(51)).unwrap_err())
        .contains("max_pages must be between 1 and 50, got 51"));
    assert_eq!(list_plan(None, Some(20), Some(true), Some(3)).unwrap(), ListPlan::Auto {
        page_cap: 3,
        per_page: Some(20)
    });
    assert_eq!(
        list_plan(Some(2), None, None, None).unwrap(),
        ListPlan::Single(PageParams::new(Some(2), None))
    );
}

#[test]
fn auto_pagination_metadata_counts_items() {
    let bounded = BoundedPage {
        items: vec![1, 2, 3],
        pages_read: 2,
        page_cap: 2,
        truncated: true,
        last_info: PageInfo::from_header_values(PageParams::new(Some(2), None), Some("4"), None),
    };
    let meta = AutoPagination::from_bounded(&bounded);
    assert_eq!(meta, AutoPagination { pages_read: 2, page_cap: 2, truncated: true, count: 3 });
}

#[test]
fn bulk_results_aggregate_in_order() {
    let results = vec![
        bulk_item_result(1, "complete", Ok(BulkOutcome::Task("task 1"))),
        bulk_item_result(2, "complete", Err(Error::Timeout { endpoint: "tasks.update" })),
        bulk_item_result(3, "complete", Ok(BulkOutcome::Message("done".to_string()))),
    ];
    let summary = BulkOperationResult::from_results(results);
    assert!(!summary.ok);
    assert_eq!(summary.total, 3);
    assert_eq!(summary.succeeded, 2);
    assert_eq!(summary.failed, 1);
    assert_eq!(summary.results[0].task, Some("task 1"));
    assert_eq!(summary.results[1].error.as_ref().unwrap().kind, "timeout");
    assert_eq!(summary.results[2].message.as_deref(), Some("done"));
    let all_ok = BulkOperationResult::from_results(vec![bulk_item_result(4, "reopen", Ok(BulkOutcome::<()>::Task(())))]);
    assert!(all_ok.ok);
    assert_eq!(all_ok.results[0].operation, "reopen");
}

#[test]
fn confirmation_messages() {
    assert_eq!(user_assigned_message(3, 42), "user 3 assigned to task 42");
    assert_eq!(label_added_message(7, 42), "label 7 added to task 42");
}

#[test]
fn project_create_requires_a_title() {
    let args = ProjectsCreateArgs {
        title: "  ".to_string(),
        description: None,
        hex_color: None,
        parent_project_id: None,
        identifier: None,
        is_favorite: None,
    };
    assert!(message(args.into_body().unwrap_err()).contains("title must not be empty"));
    let args = ProjectsCreateArgs {
        title: "Home".to_string(),
        description: Some("d".to_string()),
        hex_color: None,
        parent_project_id: Some(2),
        identifier: None,
        is_favorite: Some(true),
    };
    let body = args.into_body().unwrap();
    assert_eq!(body.title, "Home");
    assert_eq!(body.parent_project_id, Some(2));
}

#[test]
fn filter_update_sends_the_query_only_when_set() {
    let base = || FiltersUpdateArgs {
        filter_id: 3,
        title: Some("Open".to_string()),
        description: None,
        filter: None,
        sort_by: None,
        order_by: None,
        filter_timezone: None,
        filter_include_nulls: None,
        is_favorite: None,
    };
    let (id, patch) = base().into_patch().unwrap();
    assert_eq!(id, 3);
    assert!(patch.filters.is_none());
    let mut with_filter = base();
    with_filter.filter = Some("done = false".to_string());
    let (_, patch) = with_filter.into_patch().unwrap();
    assert_eq!(patch.filters.unwrap().filter.as_deref(), Some("done = false"));
    let mut bad = base();
    bad.filter_timezone = Some(" ".to_string());
    assert!(message(bad.into_patch().unwrap_err()).contains("filter_timezone must not be empty"));
}

fn upload(content: Option<&str>, path: Option<&str>, name: Option<&str>) -> AttachmentsUploadArgs {
    AttachmentsUploadArgs {
        task_id: 9,
        file_name: name.map(str::to_string),
        content_base64: content.map(str::to_string),
        file_path: path.map(str::to_string),
    }
}

#[test]
fn upload_sources_are_exclusive() {
    assert!(message(upload(Some("aGk="), Some("/tmp/x"), Some("x")).into_source().unwrap_err()).contains("not both"));
    assert!(message(upload(None, None, None).into_source().unwrap_err()).contains("provide content_base64 or file_path"));
    assert!(message(upload(Some("aGk="), None, None).into_source().unwrap_err()).contains("file_name is required"));
    match upload(Some("  aGk=  "), None, Some("hi.txt")).into_source().unwrap() {
        (9, UploadSource::Inline { file_name, content }) => {
            assert_eq!(file_name, "hi.txt");
            assert_eq!(content, "aGk=");
        }
        _ => panic!("expected inline content"),
    }
    match upload(None, Some("/tmp/x.txt"), None).into_source().unwrap() {
        (9, UploadSource::Local { path, name }) => {
            assert_eq!(path, "/tmp/x.txt");
            assert_eq!(name, None);
        }
        _ => panic!("expected a local file"),
    }
}

#[test]
fn oversized_inline_content_is_rejected_before_decoding() {
    let content = "A".repeat(28_000_000);
    let err = upload(Some(&content), None, Some("big.bin")).into_source().unwrap_err();
    assert_eq!(
        message(err),
        "attachment is about 21000000 bytes; the maximum supported upload is 20971520 bytes"
    );
}

#[test]
fn upload_content_is_decoded_as_standard_base64() {
    assert_eq!(decode_upload("aGVsbG8=").unwrap(), b"hello".to_vec());
    assert!(message(decode_upload("not base64!").unwrap_err()).contains("content_base64 is not valid base64"));
}

#[test]
fn upload_names_and_sizes_are_checked() {
    assert_eq!(upload_file_name(Some("a.txt".to_string()), Some("b.txt".to_string())), "a.txt");
    assert_eq!(upload_file_name(None, Some("b.txt".to_string())), "b.txt");
    assert_eq!(upload_file_name(None, None), "attachment");
    assert!(check_upload("a.txt", 10).is_ok());
    assert!(message(check_upload(" ", 10).unwrap_err()).contains("file_name must not be empty"));
    assert!(check_upload("a.txt", 20_971_521).is_err());
    assert!(message(oversized_upload(5)).contains("about 5 bytes"));
}

fn attachment(id: i64, name: Option<&str>) -> TaskAttachment {
    TaskAttachment {
        id,
        task_id: 1,
        file: name.map(|n| FileMeta { id, name: n.to_string(), mime: String::new(), size: None, created: None }),
        created_by: None,
        created: None,
    }
}

#[test]
fn the_newest_attachment_with_the_name_is_picked() {
    let items = vec![
        attachment(4, Some("a.txt")),
        attachment(9, Some("b.txt")),
        attachment(7, Some("a.txt")),
        attachment(5, None),
    ];
    assert_eq!(newest_attachment_named(items.clone(), "a.txt").unwrap().id, 7);
    assert!(newest_attachment_named(items, "c.txt").is_none());
}

#[test]
fn inline_download_limit_suggests_save_path() {
    let err = inline_download_error(Error::TooLarge { endpoint: "attachments.download", size: Some(3_000_000), limit: 2_097_152 });
    assert_eq!(
        message(err),
        "attachment is 3000000 bytes, larger than the 2097152 byte inline limit; pass save_path to write it to disk instead"
    );
    let err = inline_download_error(Error::TooLarge { endpoint: "attachments.download", size: None, limit: 2_097_152 });
    assert!(message(err).starts_with("attachment is larger than"));
    let other = inline_download_error(Error::Timeout { endpoint: "attachments.download" });
    assert!(matches!(other, Error::Timeout { .. }));
}

#[test]
fn date_targets_are_checked() {
    assert!(validate_date_target(None).is_ok());
    assert!(validate_date_target(Some("start_date")).is_ok());
    assert!(validate_date_target(Some("deadline")).is_err());
}

fn wednesday() -> ReferenceDay {
    // 2026-06-10, a Wednesday, after 09:00 and before 23:59.
    ReferenceDay { today: 739777, default_time: TodayAt::Passed, end_of_day_time: TodayAt::Ahead }
}

#[test]
fn date_arguments_resolve_shortcuts() {
    let config = DateConfig::default();
    let r = resolved_date("due_date", Some("2026-07-01T00:00:00Z".to_string()), None, None, &wednesday(), &config);
    assert_eq!(r.unwrap(), DateValue::Text(Some("2026-07-01T00:00:00Z".to_string())));
    let r = resolved_date("due_date", Some("x".to_string()), Some("today".to_string()), None, &wednesday(), &config);
    assert!(message(r.unwrap_err()).contains("provide either due_date or due_date_shortcut, not both"));
    let r = resolved_date("due_date", None, Some("clear".to_string()), Some("0001-01-01T00:00:00Z"), &wednesday(), &config);
    assert_eq!(r.unwrap(), DateValue::Text(Some("0001-01-01T00:00:00Z".to_string())));
    let r = resolved_date("due_date", None, Some("none".to_string()), None, &wednesday(), &config);
    assert_eq!(r.unwrap(), DateValue::Text(None));
    let r = resolved_date("due_date", None, Some("tomorrow".to_string()), None, &wednesday(), &config);
    assert_eq!(r.unwrap(), DateValue::At { day: 739778, time_of_day: TimeOfDay { hour: 9, minute: 0 } });
}

fn reminder(
    at: Option<&str>,
    shortcut: Option<&str>,
    relative_to: Option<ReminderRelativeTo>,
    period: Option<i64>,
) -> ReminderInput {
    ReminderInput {
        reminder: at.map(str::to_string),
        reminder_shortcut: shortcut.map(str::to_string),
        relative_to,
        relative_period_seconds: period,
    }
}

#[test]
fn reminders_are_absolute_or_relative() {
    let config = DateConfig::default();
    let r = build_reminder(reminder(Some("2026-07-01T09:00:00Z"), None, None, None), &wednesday(), &config);
    match r.unwrap() {
        ReminderValue::Ready(t) => assert_eq!(t.reminder.as_deref(), Some("2026-07-01T09:00:00Z")),
        other => panic!("unexpected {other:?}"),
    }
    let r = build_reminder(reminder(None, None, Some(ReminderRelativeTo::DueDate), Some(-3600)), &wednesday(), &config);
    match r.unwrap() {
        ReminderValue::Ready(t) => {
            assert_eq!(t.relative_to.as_deref(), Some("due_date"));
            assert_eq!(t.relative_period, Some(-3600));
        }
        other => panic!("unexpected {other:?}"),
    }
    let r = build_reminder(reminder(None, Some("next friday"), None, None), &wednesday(), &config);
    assert_eq!(r.unwrap(), ReminderValue::At { day: 739779, time_of_day: TimeOfDay { hour: 9, minute: 0 } });
    for (input, expected) in [
        (reminder(Some("x"), None, Some(ReminderRelativeTo::DueDate), None), "not both"),
        (reminder(Some("a"), Some("b"), None, None), "reminder or reminder_shortcut, not both"),
        (reminder(Some("yesterday-ish"), None, None, None), "valid RFC 3339"),
        (reminder(None, Some("clear"), None, None), "a clear shortcut cannot be used"),
        (reminder(None, None, Some(ReminderRelativeTo::StartDate), None), "relative_period_seconds is required"),
        (reminder(None, None, None, Some(60)), "relative_to is required"),
        (reminder(None, None, None, None), "provide a reminder"),
    ] {
        let err = build_reminder(input, &wednesday(), &config).unwrap_err();
        assert!(message(err).contains(expected), "{expected}");
    }
}

#[test]
fn error_bodies_are_exposed_for_callers() {
    let err = Error::from_status("tasks.get", 404, Some(ErrorBody { code: Some(1), message: "m".to_string() }), b"");
    assert!(matches!(err, Error::Api { code: Some(1), .. }));
}

fn view(id: i64, kind: &str) -> ViewListing {
    ViewListing {
        id,
        title: format!("view {id}"),
        view_kind: kind.to_string(),
        default_bucket_id: 10 * id,
        done_bucket_id: 10 * id + 1,
    }
}

#[test]
fn first_kanban_view_picks_the_earliest_kanban_view() {
    let views = vec![view(1, "list"), view(2, "kanban"), view(3, "kanban")];
    assert_eq!(first_kanban_view(&views, 5).unwrap(), 1);
}

#[test]
fn missing_kanban_view_names_the_project() {
    let views = vec![view(1, "list"), view(2, "gantt")];
    match first_kanban_view(&views, 5) {
        Err(Error::InvalidArgument(m)) => assert_eq!(
            m,
            "project 5 has no kanban view; check its views with vikunja_project_views_list or pass view_id explicitly"
        ),
        other => panic!("unexpected {other:?}"),
    }
}

#[test]
fn bucket_flags_follow_the_view_definition() {
    let kanban = view(2, "kanban");
    assert_eq!(bucket_flags(Some(&kanban), 20), (Some(true), Some(false)));
    assert_eq!(bucket_flags(Some(&kanban), 21), (Some(false), Some(true)));
    assert_eq!(bucket_flags(Some(&kanban), 7), (Some(false), Some(false)));
    assert_eq!(bucket_flags(None, 20), (None, None));
}

#[test]
fn bucket_and_view_listing_arguments_are_checked() {
    let ok = BucketsListArgs { project_id: 3, view_id: Some(4), page: Some(2), per_page: None };
    assert_eq!(
        ok.validate().unwrap(),
        (3, PageParams { page: Some(2), per_page: None })
    );
    let bad_view = BucketsListArgs { project_id: 3, view_id: Some(0), page: None, per_page: None };
    assert_eq!(message(bad_view.validate().unwrap_err()), "view_id must be a positive integer");
    let bad_page = ProjectViewsListArgs { project_id: 3, page: Some(0), per_page: None };
    assert_eq!(message(bad_page.validate().unwrap_err()), "page must be >= 1");
    let bad_project = ProjectViewsListArgs { project_id: -1, page: None, per_page: None };
    assert_eq!(
        message(bad_project.validate().unwrap_err()),
        "project_id must be a positive integer"
    );
}
