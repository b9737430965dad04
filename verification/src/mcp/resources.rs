//! Read-only MCP resources: their URIs, the prebuilt task views and the
//! parsing of entity URIs such as `vikunja://tasks/42`.

use vstd::prelude::*;

use crate::text::{chars_of, copy_range, parse_i64, parse_i64_spec, starts_with_at, str_eq};

verus! {

pub const STATUS_URI: &'static str = "vikunja://status";

pub const PROJECTS_URI: &'static str = "vikunja://projects";

pub const TASKS_URI: &'static str = "vikunja://tasks";

pub const TASKS_TODAY_URI: &'static str = "vikunja://tasks/today";

pub const TASKS_OVERDUE_URI: &'static str = "vikunja://tasks/overdue";

pub const TASKS_UPCOMING_URI: &'static str = "vikunja://tasks/upcoming";

pub const TASKS_HIGH_PRIORITY_URI: &'static str = "vikunja://tasks/high-priority";

pub const TASKS_INBOX_URI: &'static str = "vikunja://tasks/inbox";

pub const TASKS_RECENTLY_UPDATED_URI: &'static str = "vikunja://tasks/recently-updated";

pub const PROJECT_URI_PREFIX: &'static str = "vikunja://projects/";

pub const TASK_URI_PREFIX: &'static str = "vikunja://tasks/";

/// Cap on auto-pagination when rendering list resources; with the default
/// page size of 50 this covers 500 items.
pub const MAX_RESOURCE_PAGES: u32 = 10;

/// A prebuilt read-only task view: a fixed Vikunja filter expression plus a
/// sort order, exposed as a `vikunja://tasks/<slug>` resource.
///
/// Null-date semantics follow Vikunja >= 1.0 filter syntax, where
/// `due_date = null` / `due_date != null` match tasks without/with a due
/// date.
#[derive(Debug, Clone, Copy, PartialEq, Eq, Structural)]
pub enum TaskView {
    Today,
    Overdue,
    Upcoming,
    HighPriority,
    Inbox,
    RecentlyUpdated,
}

/// The resource URI of a view.
pub open spec fn view_uri(v: TaskView) -> Seq<char> {
    match v {
        TaskView::Today => "vikunja://tasks/today"@,
        TaskView::Overdue => "vikunja://tasks/overdue"@,
        TaskView::Upcoming => "vikunja://tasks/upcoming"@,
        TaskView::HighPriority => "vikunja://tasks/high-priority"@,
        TaskView::Inbox => "vikunja://tasks/inbox"@,
        TaskView::RecentlyUpdated => "vikunja://tasks/recently-updated"@,
    }
}

/// The view whose URI is `u`, if any.
pub open spec fn view_from_uri(u: Seq<char>) -> Option<TaskView> {
    if u == view_uri(TaskView::Today) {
        Some(TaskView::Today)
    } else if u == view_uri(TaskView::Overdue) {
        Some(TaskView::Overdue)
    } else if u == view_uri(TaskView::Upcoming) {
        Some(TaskView::Upcoming)
    } else if u == view_uri(TaskView::HighPriority) {
        Some(TaskView::HighPriority)
    } else if u == view_uri(TaskView::Inbox) {
        Some(TaskView::Inbox)
    } else if u == view_uri(TaskView::RecentlyUpdated) {
        Some(TaskView::RecentlyUpdated)
    } else {
        None
    }
}

pub open spec fn view_slug(v: TaskView) -> Seq<char> {
    match v {
        TaskView::Today => "today"@,
        TaskView::Overdue => "overdue"@,
        TaskView::Upcoming => "upcoming"@,
        TaskView::HighPriority => "high-priority"@,
        TaskView::Inbox => "inbox"@,
        TaskView::RecentlyUpdated => "recently-updated"@,
    }
}

pub open spec fn view_title(v: TaskView) -> Seq<char> {
    match v {
        TaskView::Today => "Tasks due today"@,
        TaskView::Overdue => "Overdue tasks"@,
        TaskView::Upcoming => "Tasks due in the next 7 days"@,
        TaskView::HighPriority => "High-priority open tasks"@,
        TaskView::Inbox => "Inbox: open tasks without a due date"@,
        TaskView::RecentlyUpdated => "Recently updated tasks"@,
    }
}

pub open spec fn view_description(v: TaskView) -> Seq<char> {
    match v {
        TaskView::Today => "Open tasks due today, sorted by due date (ascending)."@,
        TaskView::Overdue => "Open tasks with a due date before today, sorted by due date (ascending)."@,
        TaskView::Upcoming => "Open tasks due within the next 7 days, starting today (includes today, excludes overdue), sorted by due date (ascending)."@,
        TaskView::HighPriority => "Open tasks with priority >= 3 (high/urgent/do-now), sorted by priority (descending)."@,
        TaskView::Inbox => "Open tasks without a due date (likely unplanned), sorted by last update (descending)."@,
        TaskView::RecentlyUpdated => "All tasks ordered by most recently updated first (includes done tasks)."@,
    }
}

pub open spec fn view_filter(v: TaskView) -> Option<Seq<char>> {
    match v {
        TaskView::Today => Some("done = false && due_date >= now/d && due_date < now/d+1d"@),
        TaskView::Overdue => Some("done = false && due_date < now/d && due_date != null"@),
        TaskView::Upcoming => Some("done = false && due_date >= now/d && due_date < now/d+7d"@),
        TaskView::HighPriority => Some("done = false && priority >= 3"@),
        TaskView::Inbox => Some("done = false && due_date = null"@),
        TaskView::RecentlyUpdated => None,
    }
}

pub open spec fn view_sort_by(v: TaskView) -> Seq<char> {
    match v {
        TaskView::Today | TaskView::Overdue | TaskView::Upcoming => "due_date"@,
        TaskView::HighPriority => "priority"@,
        TaskView::Inbox | TaskView::RecentlyUpdated => "updated"@,
    }
}

pub open spec fn view_order_by(v: TaskView) -> Seq<char> {
    match v {
        TaskView::Today | TaskView::Overdue | TaskView::Upcoming => "asc"@,
        TaskView::HighPriority | TaskView::Inbox | TaskView::RecentlyUpdated => "desc"@,
    }
}

pub open spec fn all_views() -> Seq<TaskView> {
    seq![
        TaskView::Today,
        TaskView::Overdue,
        TaskView::Upcoming,
        TaskView::HighPriority,
        TaskView::Inbox,
        TaskView::RecentlyUpdated,
    ]
}

impl TaskView {
    /// Every view, in the order they are advertised.
    pub fn all() -> (r: Vec<TaskView>)
        ensures
            r@ == all_views(),
    {
        vec![
            TaskView::Today,
            TaskView::Overdue,
            TaskView::Upcoming,
            TaskView::HighPriority,
            TaskView::Inbox,
            TaskView::RecentlyUpdated,
        ]
    }

    /// The view served at `uri`, if any.
    pub fn from_uri(uri: &str) -> (r: Option<TaskView>)
        ensures
            r == view_from_uri(uri@),
    {
        if str_eq(uri, TaskView::Today.uri()) {
            Some(TaskView::Today)
        } else if str_eq(uri, TaskView::Overdue.uri()) {
            Some(TaskView::Overdue)
        } else if str_eq(uri, TaskView::Upcoming.uri()) {
            Some(TaskView::Upcoming)
        } else if str_eq(uri, TaskView::HighPriority.uri()) {
            Some(TaskView::HighPriority)
        } else if str_eq(uri, TaskView::Inbox.uri()) {
            Some(TaskView::Inbox)
        } else if str_eq(uri, TaskView::RecentlyUpdated.uri()) {
            Some(TaskView::RecentlyUpdated)
        } else {
            None
        }
    }

    pub fn uri(self) -> (r: &'static str)
        ensures
            r@ == view_uri(self),
    {
        match self {
            TaskView::Today => TASKS_TODAY_URI,
            TaskView::Overdue => TASKS_OVERDUE_URI,
            TaskView::Upcoming => TASKS_UPCOMING_URI,
            TaskView::HighPriority => TASKS_HIGH_PRIORITY_URI,
            TaskView::Inbox => TASKS_INBOX_URI,
            TaskView::RecentlyUpdated => TASKS_RECENTLY_UPDATED_URI,
        }
    }

    /// Short identifier used in resource names and the `view` output field.
    pub fn slug(self) -> (r: &'static str)
        ensures
            r@ == view_slug(self),
    {
        match self {
            TaskView::Today => "today",
            TaskView::Overdue => "overdue",
            TaskView::Upcoming => "upcoming",
            TaskView::HighPriority => "high-priority",
            TaskView::Inbox => "inbox",
            TaskView::RecentlyUpdated => "recently-updated",
        }
    }

    pub fn title(self) -> (r: &'static str)
        ensures
            r@ == view_title(self),
    {
        match self {
            TaskView::Today => "Tasks due today",
            TaskView::Overdue => "Overdue tasks",
            TaskView::Upcoming => "Tasks due in the next 7 days",
            TaskView::HighPriority => "High-priority open tasks",
            TaskView::Inbox => "Inbox: open tasks without a due date",
            TaskView::RecentlyUpdated => "Recently updated tasks",
        }
    }

    pub fn description(self) -> (r: &'static str)
        ensures
            r@ == view_description(self),
    {
        match self {
            TaskView::Today => "Open tasks due today, sorted by due date (ascending).",
            TaskView::Overdue => "Open tasks with a due date before today, sorted by due date (ascending).",
            TaskView::Upcoming => "Open tasks due within the next 7 days, starting today (includes today, excludes overdue), sorted by due date (ascending).",
            TaskView::HighPriority => "Open tasks with priority >= 3 (high/urgent/do-now), sorted by priority (descending).",
            TaskView::Inbox => "Open tasks without a due date (likely unplanned), sorted by last update (descending).",
            TaskView::RecentlyUpdated => "All tasks ordered by most recently updated first (includes done tasks).",
        }
    }

    /// Vikunja filter expression of this view, if any.
    pub fn filter(self) -> (r: Option<&'static str>)
        ensures
            match (r, view_filter(self)) {
                (Some(a), Some(b)) => a@ == b,
                (None, None) => true,
                _ => false,
            },
    {
        match self {
            TaskView::Today => Some("done = false && due_date >= now/d && due_date < now/d+1d"),
            TaskView::Overdue => Some("done = false && due_date < now/d && due_date != null"),
            TaskView::Upcoming => Some("done = false && due_date >= now/d && due_date < now/d+7d"),
            TaskView::HighPriority => Some("done = false && priority >= 3"),
            TaskView::Inbox => Some("done = false && due_date = null"),
            TaskView::RecentlyUpdated => None,
        }
    }

    pub fn sort_by(self) -> (r: &'static str)
        ensures
            r@ == view_sort_by(self),
    {
        match self {
            TaskView::Today | TaskView::Overdue | TaskView::Upcoming => "due_date",
            TaskView::HighPriority => "priority",
            TaskView::Inbox | TaskView::RecentlyUpdated => "updated",
        }
    }

    pub fn order_by(self) -> (r: &'static str)
        ensures
            r@ == view_order_by(self),
    {
        match self {
            TaskView::Today | TaskView::Overdue | TaskView::Upcoming => "asc",
            TaskView::HighPriority | TaskView::Inbox | TaskView::RecentlyUpdated => "desc",
        }
    }
}

/// Every view is found again from its own URI: the view URIs are pairwise
/// distinct.
pub proof fn lemma_task_view_uri_round_trip(v: TaskView)
    ensures
        view_from_uri(view_uri(v)) == Some(v),
{
    reveal_strlit("vikunja://tasks/today");
    reveal_strlit("vikunja://tasks/overdue");
    reveal_strlit("vikunja://tasks/upcoming");
    reveal_strlit("vikunja://tasks/high-priority");
    reveal_strlit("vikunja://tasks/inbox");
    reveal_strlit("vikunja://tasks/recently-updated");
    let t = view_uri(TaskView::Today);
    let o = view_uri(TaskView::Overdue);
    let u = view_uri(TaskView::Upcoming);
    let h = view_uri(TaskView::HighPriority);
    let i = view_uri(TaskView::Inbox);
    let r = view_uri(TaskView::RecentlyUpdated);
    assert(t[16] == 't' && o[16] == 'o' && u[16] == 'u' && h[16] == 'h' && i[16] == 'i' && r[16] == 'r');
    assert(t[17] == 'o' && u[17] == 'p');
    assert(t != o && t != u && t != h && t != i && t != r);
    assert(o != u && o != h && o != i && o != r);
    assert(u != h && u != i && u != r);
    assert(h != i && h != r);
    assert(i != r);
}

/// Whether `s` starts with `p`.
pub open spec fn starts_with(s: Seq<char>, p: Seq<char>) -> bool {
    p.len() <= s.len() && s.subrange(0, p.len() as int) == p
}

/// The positive id that follows `prefix` in `uri`, if the rest parses as an
/// integer and is positive.
pub open spec fn uri_id(uri: Seq<char>, prefix: Seq<char>) -> Option<i64> {
    if starts_with(uri, prefix) {
        match parse_i64_spec(uri.subrange(prefix.len() as int, uri.len() as int)) {
            Some(id) => if id > 0 {
                Some(id)
            } else {
                None
            },
            None => None,
        }
    } else {
        None
    }
}

/// Parses the numeric id of an entity URI such as `vikunja://tasks/42`.
pub fn parse_id(uri: &str, prefix: &str) -> (r: Option<i64>)
    ensures
        r == uri_id(uri@, prefix@),
{
    let u = chars_of(uri);
    let p = chars_of(prefix);
    if !starts_with_at(&u, &p, 0) {
        return None;
    }
    assert(u@.subrange(0, p@.len() as int) == p@);
    let rest = copy_range(&u, p.len(), u.len());
    match parse_i64(&rest) {
        Some(id) => if id > 0 {
            Some(id)
        } else {
            None
        },
        None => None,
    }
}

} // verus!
