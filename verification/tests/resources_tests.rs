//! Tests of the resource URIs and prebuilt task views.

use vikunja_rust_mcp::mcp::resources::{parse_id, TaskView, TASK_URI_PREFIX};

#[test]
fn task_view_uris_round_trip() {
    for view in TaskView::all() {
        assert_eq!(TaskView::from_uri(view.uri()), Some(view));
    }
    assert_eq!(TaskView::from_uri("vikunja://tasks"), None);
    assert_eq!(TaskView::from_uri("vikunja://tasks/42"), None);
    assert_eq!(TaskView::from_uri("vikunja://tasks/bogus"), None);
}

#[test]
fn task_view_definitions_do_not_drift() {
    let cases: &[(TaskView, &str, Option<&str>, &str, &str)] = &[
        (
            TaskView::Today,
            "vikunja://tasks/today",
            Some("done = false && due_date >= now/d && due_date < now/d+1d"),
            "due_date",
            "asc",
        ),
        (
            TaskView::Overdue,
            "vikunja://tasks/overdue",
            Some("done = false && due_date < now/d && due_date != null"),
            "due_date",
            "asc",
        ),
        (
            TaskView::Upcoming,
            "vikunja://tasks/upcoming",
            Some("done = false && due_date >= now/d && due_date < now/d+7d"),
            "due_date",
            "asc",
        ),
        (
            TaskView::HighPriority,
            "vikunja://tasks/high-priority",
            Some("done = false && priority >= 3"),
            "priority",
            "desc",
        ),
        (
            TaskView::Inbox,
            "vikunja://tasks/inbox",
            Some("done = false && due_date = null"),
            "updated",
            "desc",
        ),
        (TaskView::RecentlyUpdated, "vikunja://tasks/recently-updated", None, "updated", "desc"),
    ];
    assert_eq!(cases.len(), TaskView::all().len());
    for (view, uri, filter, sort_by, order_by) in cases {
        assert_eq!(view.uri(), *uri);
        assert_eq!(view.filter(), *filter, "{uri} filter");
        assert_eq!(view.sort_by(), *sort_by, "{uri} sort_by");
        assert_eq!(view.order_by(), *order_by, "{uri} order_by");
        assert!(!view.slug().is_empty());
        assert!(!view.description().is_empty());
        assert!(!view.title().is_empty());
    }
}

#[test]
fn parse_id_accepts_only_positive_integers() {
    assert_eq!(parse_id("vikunja://tasks/42", TASK_URI_PREFIX), Some(42));
    assert_eq!(parse_id("vikunja://tasks/0", TASK_URI_PREFIX), None);
    assert_eq!(parse_id("vikunja://tasks/-3", TASK_URI_PREFIX), None);
    assert_eq!(parse_id("vikunja://tasks/abc", TASK_URI_PREFIX), None);
    assert_eq!(parse_id("vikunja://other/42", TASK_URI_PREFIX), None);
}
