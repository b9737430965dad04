//! Tests of the Vikunja models, pagination and task queries.

use vikunja_rust_mcp::error::{Error, TransportFailure};
use vikunja_rust_mcp::vikunja::client::{
    append_reminder_members, array_text,
    after_attempt, api_path, check_content_length, check_update_patch, json_type_name,
    merge_saved_filter, overlay_fields, reminder_append, saved_filter_options,
    with_default_page_size, Attempt, DownloadBuffer, ExecStep, JsonKind, ReminderAppend,
    TaskListOptions,
};
use vikunja_rust_mcp::vikunja::models::{
    saved_filter_id_from_project_id, saved_filter_pseudo_project_id, saved_filters_from,
    ProjectListing, RelationKind, SavedFilter, SavedFilterQuery, SavedFilterSummary,
    SavedFilterUpdate,
};
use vikunja_rust_mcp::vikunja::pagination::{PageInfo, PageParams, PageWalk, WalkStep};

#[test]
fn saved_filter_pseudo_project_ids_convert_both_ways() {
    assert_eq!(saved_filter_pseudo_project_id(1), -2);
    assert_eq!(saved_filter_pseudo_project_id(41), -42);
    assert_eq!(saved_filter_id_from_project_id(-2), Some(1));
    assert_eq!(saved_filter_id_from_project_id(-42), Some(41));
    assert_eq!(saved_filter_id_from_project_id(7), None);
    assert_eq!(saved_filter_id_from_project_id(0), None);
    assert_eq!(saved_filter_id_from_project_id(-1), None);
    assert_eq!(saved_filter_id_from_project_id(i64::MIN), None);
    assert_eq!(saved_filter_id_from_project_id(i64::MIN + 1), Some(i64::MAX - 1));
}

#[test]
fn to_query_includes_only_set_params() {
    assert!(PageParams::new(None, None).to_query().is_empty());
    assert_eq!(PageParams::new(Some(2), None).to_query(), vec![("page", "2".to_string())]);
    assert_eq!(
        PageParams::new(Some(3), Some(25)).to_query(),
        vec![("page", "3".to_string()), ("per_page", "25".to_string())]
    );
}

#[test]
fn page_info_parses_vikunja_headers() {
    let info = PageInfo::from_header_values(PageParams::new(Some(2), Some(10)), Some("5"), Some("10"));
    assert_eq!(info.page, 2);
    assert_eq!(info.per_page, Some(10));
    assert_eq!(info.total_pages, Some(5));
    assert_eq!(info.result_count, Some(10));
    assert_eq!(info.has_more, Some(true));
}

#[test]
fn last_page_has_no_more() {
    let info = PageInfo::from_header_values(PageParams::new(Some(5), None), Some("5"), None);
    assert_eq!(info.has_more, Some(false));
}

#[test]
fn missing_headers_yield_unknown_totals() {
    let info = PageInfo::from_header_values(PageParams::new(None, None), None, None);
    assert_eq!(info.page, 1);
    assert_eq!(info.total_pages, None);
    assert_eq!(info.result_count, None);
    assert_eq!(info.has_more, None);
}

#[test]
fn malformed_headers_are_ignored() {
    let info = PageInfo::from_header_values(PageParams::new(None, None), Some("many"), Some(""));
    assert_eq!(info.total_pages, None);
    assert_eq!(info.result_count, None);
}

#[test]
fn combined_filter_merges_project_and_filter() {
    let options = TaskListOptions {
        filter: Some("done = false".into()),
        project_id: Some(5),
        ..Default::default()
    };
    assert_eq!(options.combined_filter().unwrap(), "(done = false) && project_id = 5");
    let only_project = TaskListOptions { project_id: Some(5), ..Default::default() };
    assert_eq!(only_project.combined_filter().unwrap(), "project_id = 5");
    let only_filter = TaskListOptions { filter: Some("priority >= 3".into()), ..Default::default() };
    assert_eq!(only_filter.combined_filter().unwrap(), "priority >= 3");
    assert_eq!(TaskListOptions::default().combined_filter(), None);
}

#[test]
fn relation_kinds_use_vikunja_names() {
    assert_eq!(RelationKind::Subtask.as_str(), "subtask");
    assert_eq!(RelationKind::Blocking.as_str(), "blocking");
}

#[test]
fn page_walk_stops_at_the_cap_and_reports_truncation() {
    let walk = PageWalk::start(2);
    let walk = match walk.after_page(Some(true)) {
        WalkStep::Fetch(next) => next,
        other => panic!("expected another page, got {other:?}"),
    };
    assert_eq!(walk.page, 2);
    match walk.after_page(Some(true)) {
        WalkStep::Done { pages_read, truncated } => {
            assert_eq!(pages_read, 2);
            assert!(truncated);
        }
        other => panic!("expected to stop, got {other:?}"),
    }
}

#[test]
fn api_url_appends_api_v1() {
    assert_eq!(api_path("/", "/tasks/1"), "/api/v1/tasks/1");
    assert_eq!(api_path("", "/projects"), "/api/v1/projects");
}

#[test]
fn api_url_preserves_subpath_installations() {
    assert_eq!(api_path("/vikunja/", "/tasks/1"), "/vikunja/api/v1/tasks/1");
    assert_eq!(api_path("/vikunja", "/projects"), "/vikunja/api/v1/projects");
}

#[test]
fn default_page_size_fills_in_missing_per_page() {
    assert_eq!(with_default_page_size(PageParams::new(Some(2), None), 50), PageParams::new(Some(2), Some(50)));
    assert_eq!(with_default_page_size(PageParams::new(None, Some(10)), 50), PageParams::new(None, Some(10)));
}

#[test]
fn only_the_first_attempt_of_a_repeatable_request_is_retried() {
    let timeout = || Attempt::Failed(Error::Timeout { endpoint: "tasks.get" });
    let network = || Attempt::Failed(Error::from_transport("tasks.get", TransportFailure::Connect));
    assert!(matches!(after_attempt(true, true, timeout()), ExecStep::Retry));
    assert!(matches!(after_attempt(true, true, network()), ExecStep::Retry));
    assert!(matches!(after_attempt(false, true, timeout()), ExecStep::Fail(Error::Timeout { .. })));
    assert!(matches!(after_attempt(true, false, network()), ExecStep::Fail(Error::Network { .. })));
    let other = Attempt::Failed(Error::InvalidResponse { endpoint: "tasks.get", detail: "x".to_string() });
    assert!(matches!(after_attempt(true, true, other), ExecStep::Fail(Error::InvalidResponse { .. })));
    assert!(matches!(after_attempt(true, true, Attempt::Responded { status: 204 }), ExecStep::Succeed));
    assert!(matches!(
        after_attempt(true, true, Attempt::Responded { status: 404 }),
        ExecStep::ReadErrorBody { status: 404 }
    ));
}

#[test]
fn downloads_stop_at_the_byte_limit() {
    assert!(check_content_length(Some(10), 10).is_ok());
    assert!(check_content_length(None, 10).is_ok());
    assert!(matches!(
        check_content_length(Some(11), 10),
        Err(Error::TooLarge { size: Some(11), limit: 10, .. })
    ));
    let mut buffer = DownloadBuffer::new(5);
    assert!(buffer.accept_chunk(b"abc").is_ok());
    assert!(matches!(buffer.accept_chunk(b"def"), Err(Error::TooLarge { size: None, limit: 5, .. })));
    assert!(buffer.accept_chunk(b"de").is_ok());
    let content = buffer.finish(Some("text/plain".to_string()));
    assert_eq!(content.bytes, b"abcde".to_vec());
    assert_eq!(content.content_type.as_deref(), Some("text/plain"));
}

fn stored_filter() -> SavedFilter {
    SavedFilter {
        id: 3,
        title: "Open".to_string(),
        description: "d".to_string(),
        filters: Some(SavedFilterQuery {
            filter: Some("done = false".to_string()),
            sort_by: Some(vec!["due_date".to_string()]),
            order_by: Some(vec!["asc".to_string()]),
            filter_timezone: Some("Europe/Berlin".to_string()),
            filter_include_nulls: Some(true),
        }),
        is_favorite: false,
        owner: None,
        created: None,
        updated: None,
    }
}

#[test]
fn saved_filter_updates_merge_the_query_field_by_field() {
    let patch = SavedFilterUpdate {
        title: None,
        description: None,
        filters: Some(SavedFilterQuery { filter: Some("priority >= 3".to_string()), ..Default::default() }),
        is_favorite: Some(true),
    };
    let merged = merge_saved_filter(stored_filter(), patch);
    assert_eq!(merged.title, "Open");
    assert!(merged.is_favorite);
    let query = merged.filters.unwrap();
    assert_eq!(query.filter.as_deref(), Some("priority >= 3"));
    assert_eq!(query.sort_by, Some(vec!["due_date".to_string()]));
    assert_eq!(query.filter_timezone.as_deref(), Some("Europe/Berlin"));
    assert_eq!(query.filter_include_nulls, Some(true));
}

#[test]
fn saved_filter_options_use_the_first_sort_pair() {
    let options = saved_filter_options(&stored_filter());
    assert_eq!(options.filter.as_deref(), Some("done = false"));
    assert_eq!(options.sort_by.as_deref(), Some("due_date"));
    assert_eq!(options.order_by.as_deref(), Some("asc"));
    assert_eq!(options.filter_timezone.as_deref(), Some("Europe/Berlin"));
    assert_eq!(options.page, None);
}

#[test]
fn reminders_are_appended_to_arrays_or_created() {
    assert!(matches!(reminder_append(Some(JsonKind::Array)), ReminderAppend::Push));
    assert!(matches!(reminder_append(None), ReminderAppend::Create));
    assert!(matches!(reminder_append(Some(JsonKind::Null)), ReminderAppend::Create));
    match reminder_append(Some(JsonKind::String)) {
        ReminderAppend::Fail(err) => assert_eq!(
            err.message(),
            "invalid response from Vikunja (tasks.get): expected reminders to be an array or null, got a string"
        ),
        other => panic!("unexpected {other:?}"),
    }
    assert_eq!(json_type_name(JsonKind::Object), "an object");
}

#[test]
fn transport_failures_carry_fixed_details() {
    assert!(matches!(Error::from_transport("x", TransportFailure::Timeout), Error::Timeout { endpoint: "x" }));
    let e = Error::from_transport("x", TransportFailure::Connect);
    assert_eq!(e.message(), "network error calling Vikunja (x): connection failed (is VIKUNJA_URL reachable?)");
    assert_eq!(e.metric_label(), "network");
    assert_eq!(Error::from_status("x", 503, None, b"").metric_label(), "server");
}

fn listing(id: i64, title: &str) -> ProjectListing {
    ProjectListing { id, title: title.to_string(), description: "d".to_string(), is_favorite: true }
}

#[test]
fn saved_filter_summary_derives_only_from_pseudo_projects() {
    let summary = SavedFilterSummary::from_project(&listing(-2, "Open work")).unwrap();
    assert_eq!(summary.filter_id, 1);
    assert_eq!(summary.pseudo_project_id, -2);
    assert_eq!(summary.title, "Open work");
    assert!(summary.is_favorite);
    assert!(SavedFilterSummary::from_project(&listing(5, "Real")).is_none());
    assert!(SavedFilterSummary::from_project(&listing(-1, "Reserved")).is_none());
    let filters = saved_filters_from(&[listing(3, "a"), listing(-3, "b"), listing(-1, "c"), listing(-10, "d")]);
    let ids: Vec<i64> = filters.iter().map(|f| f.filter_id).collect();
    assert_eq!(ids, vec![2, 9]);
}

fn members(pairs: &[(&str, &str)]) -> Vec<(String, String)> {
    pairs
        .iter()
        .map(|(k, v)| (k.to_string(), v.to_string()))
        .collect()
}

#[test]
fn overlay_keeps_untouched_fields_and_replaces_patched_ones() {
    let current = members(&[
        ("id", "7"),
        ("title", "\"Old\""),
        ("done", "false"),
        ("priority", "3"),
    ]);
    let patch = members(&[("done", "true"), ("hex_color", "\"ff0000\"")]);
    let merged = overlay_fields(Some(current), &patch, "tasks.get").unwrap();
    assert_eq!(
        merged,
        members(&[
            ("id", "7"),
            ("title", "\"Old\""),
            ("priority", "3"),
            ("done", "true"),
            ("hex_color", "\"ff0000\""),
        ])
    );
}

#[test]
fn overlay_refuses_a_current_entity_that_is_not_an_object() {
    let patch = members(&[("done", "true")]);
    match overlay_fields(None, &patch, "tasks.get") {
        Err(Error::InvalidResponse { endpoint, detail }) => {
            assert_eq!(endpoint, "tasks.get");
            assert_eq!(detail, "expected a JSON object");
        }
        other => panic!("unexpected {other:?}"),
    }
}

#[test]
fn update_patch_must_be_a_non_empty_object() {
    assert!(check_update_patch(Some(2)).is_ok());
    match check_update_patch(Some(0)) {
        Err(Error::InvalidArgument(m)) => {
            assert_eq!(m, "nothing to update: provide at least one field")
        }
        other => panic!("unexpected {other:?}"),
    }
    match check_update_patch(None) {
        Err(Error::InvalidArgument(m)) => assert_eq!(m, "update payload must be a JSON object"),
        other => panic!("unexpected {other:?}"),
    }
}

fn member(k: &str, v: &str) -> (String, String) {
    (k.to_string(), v.to_string())
}

#[test]
fn array_text_joins_elements_with_commas() {
    assert_eq!(array_text(&vec![]), "[]");
    assert_eq!(array_text(&vec!["1".to_string()]), "[1]");
    assert_eq!(array_text(&vec!["1".to_string(), "{\"a\":2}".to_string()]), "[1,{\"a\":2}]");
}

#[test]
fn appending_a_reminder_extends_the_existing_array() {
    let current = vec![member("id", "7"), member("reminders", "[{\"a\":1}]"), member("title", "\"t\"")];
    let body = append_reminder_members(
        Some(current),
        Some(JsonKind::Array),
        &vec!["{\"a\":1}".to_string()],
        &"{\"b\":2}".to_string(),
    )
    .unwrap();
    assert_eq!(
        body,
        vec![member("id", "7"), member("title", "\"t\""), member("reminders", "[{\"a\":1},{\"b\":2}]")]
    );
}

#[test]
fn appending_a_reminder_creates_the_array_when_absent_or_null() {
    let body = append_reminder_members(Some(vec![member("id", "7")]), None, &vec![], &"{\"b\":2}".to_string())
        .unwrap();
    assert_eq!(body, vec![member("id", "7"), member("reminders", "[{\"b\":2}]")]);
    let body = append_reminder_members(
        Some(vec![member("reminders", "null")]),
        Some(JsonKind::Null),
        &vec![],
        &"{\"b\":2}".to_string(),
    )
    .unwrap();
    assert_eq!(body, vec![member("reminders", "[{\"b\":2}]")]);
}

#[test]
fn appending_a_reminder_rejects_malformed_tasks() {
    match append_reminder_members(None, None, &vec![], &"{}".to_string()) {
        Err(Error::InvalidResponse { endpoint, detail }) => {
            assert_eq!(endpoint, "tasks.get");
            assert_eq!(detail, "expected a JSON object");
        }
        other => panic!("unexpected: {other:?}"),
    }
    match append_reminder_members(
        Some(vec![member("reminders", "\"x\"")]),
        Some(JsonKind::String),
        &vec![],
        &"{}".to_string(),
    ) {
        Err(Error::InvalidResponse { endpoint, detail }) => {
            assert_eq!(endpoint, "tasks.get");
            assert_eq!(detail, "expected reminders to be an array or null, got a string");
        }
        other => panic!("unexpected: {other:?}"),
    }
}
