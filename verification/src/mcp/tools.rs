//! Tool arguments and the decisions the MCP tools make before and after
//! talking to Vikunja: argument validation, request payloads, pagination
//! plans, reminder construction and bulk-result aggregation.

use vstd::prelude::*;
use vstd::utf8::encode_utf8;

use crate::dates::{DateConfig, ReferenceDay, Resolution, TimeOfDay, resolution, resolve};
use crate::text::snake_case;
use crate::error::{ApiErrorKind, Error, category, error_text, is_invalid_argument, kind_label, rejects};
use crate::text::{
    chars_eq_str, chars_of, debug_quote, debug_quoted, decimal, int_decimal, owned, push_decimal,
    push_int, push_str, str_eq, string_of, trim, trim_chars, trim_str,
};
use crate::vikunja::models::{
    LabelCreate, LabelUpdate, ProjectCreate, ProjectUpdate, RelationKind, SavedFilterCreate,
    SavedFilterQuery, SavedFilterUpdate, TaskReminder,
};
use crate::vikunja::models::{
    Label, SavedFilterSummary, TaskAttachment, TaskComment, Team, User,
};
use crate::vikunja::client::{AttachmentContent, TaskListOptions};
use crate::vikunja::pagination::{BoundedPage, PageInfo, PageParams, PageWalk};

verus! {

/// Largest attachment returned inline (base64) by the download tool.
pub const MAX_INLINE_DOWNLOAD_BYTES: usize = 2097152;

/// Largest attachment the upload tool accepts.
pub const MAX_UPLOAD_BYTES: usize = 20971520;

/// Most task ids one bulk call may name.
pub const MAX_BULK_TASK_IDS: usize = 100;

/// Default page cap of `auto_paginate`.
pub const DEFAULT_AUTO_MAX_PAGES: u32 = 10;

/// Largest page cap `auto_paginate` accepts.
pub const MAX_AUTO_MAX_PAGES: u32 = 50;

/// Page cap when listing saved filters.
pub const MAX_FILTER_LIST_PAGES: u32 = 10;

/// Page cap when looking for a project's kanban view.
pub const MAX_VIEW_RESOLUTION_PAGES: u32 = 10;

// ----- Argument validation ---------------------------------------------------

pub open spec fn msg_not_positive(name: Seq<char>) -> Seq<char> {
    name + " must be a positive integer"@
}

pub open spec fn msg_empty(name: Seq<char>) -> Seq<char> {
    name + " must not be empty"@
}

fn invalid(message: String) -> (e: Error)
    ensures
        is_invalid_argument(e, message@),
{
    Error::InvalidArgument(message)
}

/// Accepts a positive id.
pub fn positive(name: &str, value: i64) -> (r: Result<i64, Error>)
    ensures
        value > 0 ==> r == Ok::<i64, Error>(value),
        value <= 0 ==> rejects(r, msg_not_positive(name@)),
{
    if value <= 0 {
        let mut m = owned(name);
        push_str(&mut m, " must be a positive integer");
        return Err(invalid(m));
    }
    Ok(value)
}

/// Accepts a value that is not blank.
pub fn non_empty(name: &str, value: &str) -> (r: Result<(), Error>)
    ensures
        trim(value@).len() > 0 ==> r is Ok,
        trim(value@).len() == 0 ==> rejects(r, msg_empty(name@)),
{
    if trim_chars(&chars_of(value)).len() == 0 {
        let mut m = owned(name);
        push_str(&mut m, " must not be empty");
        return Err(invalid(m));
    }
    Ok(())
}

/// Accepts explicit page parameters: both must be at least 1 when given.
pub fn page_params(page: Option<u32>, per_page: Option<u32>) -> (r: Result<PageParams, Error>)
    ensures
        page == Some(0u32) ==> rejects(r, "page must be >= 1"@),
        page != Some(0u32) && per_page == Some(0u32) ==> rejects(r, "per_page must be >= 1"@),
        page != Some(0u32) && per_page != Some(0u32) ==> (r matches Ok(p) && p.page == page && p.per_page == per_page),
{
    if page == Some(0u32) {
        return Err(invalid(owned("page must be >= 1")));
    }
    if per_page == Some(0u32) {
        return Err(invalid(owned("per_page must be >= 1")));
    }
    Ok(PageParams::new(page, per_page))
}

/// The effective page cap of a list call: `None` for a plain one-page
/// call; with `auto_paginate: true`, `max_pages` or 10, which must be
/// between 1 and 50 and cannot be combined with an explicit `page`.
pub open spec fn auto_cap_outcome(
    page: Option<u32>,
    auto_paginate: Option<bool>,
    max_pages: Option<u32>,
) -> Result<Option<u32>, Seq<char>> {
    if auto_paginate != Some(true) {
        if max_pages is Some {
            Err("max_pages requires auto_paginate: true"@)
        } else {
            Ok(None)
        }
    } else if page is Some {
        Err(
            "page cannot be combined with auto_paginate; auto-pagination always starts at page 1"@,
        )
    } else {
        let cap = match max_pages {
            Some(m) => m,
            None => DEFAULT_AUTO_MAX_PAGES,
        };
        if 1 <= cap <= MAX_AUTO_MAX_PAGES {
            Ok(Some(cap))
        } else {
            Err("max_pages must be between 1 and 50, got "@ + decimal(cap as nat))
        }
    }
}

/// There is no unbounded mode: an accepted auto-paginating call has a page
/// cap from 1 to 50, and every page a walk under that cap fetches is within
/// it, so one call reads at most 50 pages.
pub proof fn lemma_auto_pagination_bounded(
    page: Option<u32>,
    auto_paginate: Option<bool>,
    max_pages: Option<u32>,
    walk: PageWalk,
)
    requires
        auto_cap_outcome(page, auto_paginate, max_pages) == Ok::<Option<u32>, Seq<char>>(
            Some(walk.page_cap),
        ),
        walk.valid(),
    ensures
        1 <= walk.page_cap <= MAX_AUTO_MAX_PAGES,
        1 <= walk.page <= walk.page_cap,
{
}

/// Validates the auto-pagination arguments of a list call.
pub fn auto_page_cap(page: Option<u32>, auto_paginate: Option<bool>, max_pages: Option<u32>) -> (r:
    Result<Option<u32>, Error>)
    ensures
        match (r, auto_cap_outcome(page, auto_paginate, max_pages)) {
            (Ok(c), Ok(d)) => c == d,
            (Err(e), Err(m)) => is_invalid_argument(e, m),
            _ => false,
        },
{
    if auto_paginate != Some(true) {
        if max_pages.is_some() {
            return Err(invalid(owned("max_pages requires auto_paginate: true")));
        }
        return Ok(None);
    }
    if page.is_some() {
        return Err(
            invalid(
                owned(
                    "page cannot be combined with auto_paginate; auto-pagination always starts at page 1",
                ),
            ),
        );
    }
    let cap = match max_pages {
        Some(m) => m,
        None => DEFAULT_AUTO_MAX_PAGES,
    };
    if !(1 <= cap && cap <= MAX_AUTO_MAX_PAGES) {
        let mut m = owned("max_pages must be between 1 and 50, got ");
        push_decimal(&mut m, cap as u64);
        return Err(invalid(m));
    }
    Ok(Some(cap))
}

/// How a list tool fetches: one explicit page, or a bounded walk from page
/// 1 with the given cap and page size.
#[derive(Debug, Clone, Copy, PartialEq, Eq)]
pub enum ListPlan {
    Single(PageParams),
    Auto { page_cap: u32, per_page: Option<u32> },
}

/// The plan of a paginated list call: the auto-pagination arguments are
/// checked first, then the page parameters.
pub fn list_plan(
    page: Option<u32>,
    per_page: Option<u32>,
    auto_paginate: Option<bool>,
    max_pages: Option<u32>,
) -> (r: Result<ListPlan, Error>)
    ensures
        match auto_cap_outcome(page, auto_paginate, max_pages) {
            Err(m) => rejects(r, m),
            Ok(cap) => if page == Some(0u32) {
                rejects(r, "page must be >= 1"@)
            } else if per_page == Some(0u32) {
                rejects(r, "per_page must be >= 1"@)
            } else {
                match cap {
                    Some(c) => r == Ok::<ListPlan, Error>(
                        ListPlan::Auto { page_cap: c, per_page },
                    ),
                    None => r == Ok::<ListPlan, Error>(
                        ListPlan::Single(PageParams { page, per_page }),
                    ),
                }
            },
        },
{
    let cap = auto_page_cap(page, auto_paginate, max_pages)?;
    let params = page_params(page, per_page)?;
    match cap {
        Some(c) => Ok(ListPlan::Auto { page_cap: c, per_page }),
        None => Ok(ListPlan::Single(params)),
    }
}

/// Validates the two task ids of a relation: both positive and distinct.
pub fn relation_pair(task_id: i64, other_task_id: i64) -> (r: Result<(i64, i64), Error>)
    ensures
        task_id <= 0 ==> rejects(r, msg_not_positive("task_id"@)),
        task_id > 0 && other_task_id <= 0 ==> rejects(r, msg_not_positive("other_task_id"@)),
        task_id > 0 && other_task_id > 0 && task_id == other_task_id ==> rejects(r, "task_id and other_task_id must be different tasks"@),
        task_id > 0 && other_task_id > 0 && task_id != other_task_id ==> r == Ok::<
            (i64, i64),
            Error,
        >((task_id, other_task_id)),
{
    let task_id = positive("task_id", task_id)?;
    let other_task_id = positive("other_task_id", other_task_id)?;
    if task_id == other_task_id {
        return Err(invalid(owned("task_id and other_task_id must be different tasks")));
    }
    Ok((task_id, other_task_id))
}

pub open spec fn string_seq_view(v: Seq<String>) -> Seq<Seq<char>> {
    v.map_values(|s: String| s@)
}

/// The first problem with the sort arguments of the saved-filter tools:
/// `sort_by` and `order_by` pair up by position, so their lengths must
/// match, and every direction must be `asc` or `desc`.
pub open spec fn sort_order_problem(sort_by: Option<Seq<Seq<char>>>, order_by: Option<
    Seq<Seq<char>>,
>) -> Option<Seq<char>> {
    if sort_by is Some && order_by is Some && sort_by.unwrap().len() != order_by.unwrap().len() {
        Some(
            "sort_by ("@ + decimal(sort_by.unwrap().len()) + ") and order_by ("@ + decimal(
                order_by.unwrap().len(),
            ) + ") must have the same number of entries"@,
        )
    } else {
        match order_by {
            Some(o) => bad_direction(o, o.len()),
            None => None,
        }
    }
}

/// The first of the first `k` directions that is neither `asc` nor `desc`.
pub open spec fn bad_direction(o: Seq<Seq<char>>, k: nat) -> Option<Seq<char>>
    decreases k,
{
    if k == 0 {
        None
    } else {
        match bad_direction(o, (k - 1) as nat) {
            Some(m) => Some(m),
            None => if o[k - 1] != "asc"@ && o[k - 1] != "desc"@ {
                Some("order_by entries must be 'asc' or 'desc', got "@ + debug_quoted(o[k - 1]))
            } else {
                None
            },
        }
    }
}

pub open spec fn opt_slice_view(v: Option<&[String]>) -> Option<Seq<Seq<char>>> {
    match v {
        Some(x) => Some(string_seq_view(x@)),
        None => None,
    }
}

/// Validates the sort arguments of the saved-filter tools.
pub fn validate_sort_order(sort_by: Option<&[String]>, order_by: Option<&[String]>) -> (r: Result<
    (),
    Error,
>)
    ensures
        match sort_order_problem(opt_slice_view(sort_by), opt_slice_view(order_by)) {
            Some(m) => rejects(r, m),
            None => r is Ok,
        },
{
    if let (Some(sort), Some(order)) = (sort_by, order_by) {
        if sort.len() != order.len() {
            let mut m = owned("sort_by (");
            push_decimal(&mut m, sort.len() as u64);
            push_str(&mut m, ") and order_by (");
            push_decimal(&mut m, order.len() as u64);
            push_str(&mut m, ") must have the same number of entries");
            return Err(invalid(m));
        }
    }
    match order_by {
        Some(order) => {
            let ghost ov = string_seq_view(order@);
            assert(opt_slice_view(order_by) == Some(ov));
            assert(sort_order_problem(opt_slice_view(sort_by), opt_slice_view(order_by))
                == bad_direction(ov, ov.len()));
            let mut i: usize = 0;
            while i < order.len()
                invariant
                    i <= order.len(),
                    ov == string_seq_view(order@),
                    ov.len() == order@.len(),
                    sort_order_problem(opt_slice_view(sort_by), opt_slice_view(order_by))
                        == bad_direction(ov, ov.len()),
                    bad_direction(ov, i as nat) is None,
                decreases order.len() - i,
            {
                let d = chars_of(order[i].as_str());
                assert(ov[i as int] == order@[i as int]@);
                if !chars_eq_str(&d, "asc") && !chars_eq_str(&d, "desc") {
                    let mut m = owned("order_by entries must be 'asc' or 'desc', got ");
                    let q = debug_quote(order[i].as_str());
                    push_str(&mut m, q.as_str());
                    proof {
                        assert(d@ == ov[i as int]);
                        assert(bad_direction(ov, (i + 1) as nat) == Some(m@));
                        lemma_bad_direction_sticky(ov, (i + 1) as nat, ov.len());
                    }
                    return Err(invalid(m));
                }
                i = i + 1;
            }
            Ok(())
        },
        None => Ok(()),
    }
}

proof fn lemma_bad_direction_sticky(o: Seq<Seq<char>>, k: nat, m: nat)
    requires
        k <= m,
        bad_direction(o, k) is Some,
    ensures
        bad_direction(o, m) == bad_direction(o, k),
    decreases m - k,
{
    if k < m {
        lemma_bad_direction_sticky(o, k, (m - 1) as nat);
    }
}

/// Scanner state of a filter expression: the parenthesis depth, the open
/// quote character if inside a quoted string, and whether a `)` without a
/// matching `(` was seen.
pub struct FilterScan {
    pub depth: nat,
    pub quote: Option<char>,
    pub unbalanced_close: bool,
}

/// Scanner state after the first `k` characters of `s`.
pub open spec fn filter_scan(s: Seq<char>, k: nat) -> FilterScan
    decreases k,
{
    if k == 0 {
        FilterScan { depth: 0, quote: None, unbalanced_close: false }
    } else {
        let st = filter_scan(s, (k - 1) as nat);
        let ch = s[k - 1];
        if st.unbalanced_close {
            st
        } else {
            match st.quote {
                Some(open) => if ch == open {
                    FilterScan { depth: st.depth, quote: None, unbalanced_close: false }
                } else {
                    st
                },
                None => if ch == '\'' || ch == '"' {
                    FilterScan { depth: st.depth, quote: Some(ch), unbalanced_close: false }
                } else if ch == '(' {
                    FilterScan { depth: st.depth + 1, quote: None, unbalanced_close: false }
                } else if ch == ')' {
                    if st.depth == 0 {
                        FilterScan { depth: 0, quote: None, unbalanced_close: true }
                    } else {
                        FilterScan {
                            depth: (st.depth - 1) as nat,
                            quote: None,
                            unbalanced_close: false,
                        }
                    }
                } else {
                    st
                },
            }
        }
    }
}

/// What is wrong with a filter expression, if anything: it must not be
/// blank, parentheses must balance and quoted strings must be closed.
pub open spec fn filter_problem(name: Seq<char>, value: Seq<char>) -> Option<Seq<char>> {
    let st = filter_scan(value, value.len());
    if trim(value).len() == 0 {
        Some(msg_empty(name))
    } else if st.unbalanced_close {
        Some(name + " has unbalanced parentheses: ')' without a matching '('"@)
    } else if st.quote is Some {
        Some(
            name + " has an unterminated quoted string (missing closing "@ + seq![
                st.quote.unwrap(),
            ] + ")"@,
        )
    } else if st.depth != 0 {
        Some(name + " has unbalanced parentheses: '(' without a matching ')'"@)
    } else {
        None
    }
}

proof fn lemma_filter_scan_stuck(s: Seq<char>, k: nat, m: nat)
    requires
        k <= m <= s.len(),
        filter_scan(s, k).unbalanced_close,
    ensures
        filter_scan(s, m) == filter_scan(s, k),
    decreases m - k,
{
    if k < m {
        lemma_filter_scan_stuck(s, k, (m - 1) as nat);
    }
}

/// Light syntactic validation of a Vikunja filter expression.
pub fn validate_filter_expression(name: &str, value: &str) -> (r: Result<(), Error>)
    ensures
        match filter_problem(name@, value@) {
            Some(m) => rejects(r, m),
            None => r is Ok,
        },
{
    non_empty(name, value)?;
    let v = chars_of(value);
    let mut depth: usize = 0;
    let mut quote: Option<char> = None;
    let mut i: usize = 0;
    while i < v.len()
        invariant
            i <= v.len(),
            v@ == value@,
            trim(value@).len() > 0,
            depth <= i,
            filter_scan(v@, i as nat) == (FilterScan {
                depth: depth as nat,
                quote,
                unbalanced_close: false,
            }),
        decreases v.len() - i,
    {
        let ch = v[i];
        match quote {
            Some(open) => {
                if ch == open {
                    quote = None;
                }
            },
            None => {
                if ch == '\'' || ch == '"' {
                    quote = Some(ch);
                } else if ch == '(' {
                    depth = depth + 1;
                } else if ch == ')' {
                    if depth == 0 {
                        proof {
                            assert(filter_scan(v@, (i + 1) as nat).unbalanced_close);
                            lemma_filter_scan_stuck(v@, (i + 1) as nat, v@.len());
                        }
                        let mut m = owned(name);
                        push_str(&mut m, " has unbalanced parentheses: ')' without a matching '('");
                        assert(trim(value@).len() > 0);
                        assert(filter_problem(name@, value@) == Some(m@));
                        return Err(invalid(m));
                    }
                    depth = depth - 1;
                }
            },
        }
        i = i + 1;
    }
    if let Some(open) = quote {
        let mut m = owned(name);
        push_str(&mut m, " has an unterminated quoted string (missing closing ");
        crate::text::push_char(&mut m, open);
        push_str(&mut m, ")");
        assert(m@ =~= name@ + " has an unterminated quoted string (missing closing "@ + seq![open] + ")"@);
        assert(trim(value@).len() > 0);
        assert(filter_problem(name@, value@) == Some(m@));
        return Err(invalid(m));
    }
    if depth != 0 {
        let mut m = owned(name);
        push_str(&mut m, " has unbalanced parentheses: '(' without a matching ')'");
        return Err(invalid(m));
    }
    Ok(())
}

/// Whether a bulk id list is acceptable: 1 to 100 ids, all positive.
pub open spec fn task_ids_problem(ids: Seq<i64>) -> Option<Seq<char>> {
    if ids.len() == 0 {
        Some("task_ids must not be empty"@)
    } else if ids.len() > MAX_BULK_TASK_IDS {
        Some(
            "task_ids has "@ + decimal(ids.len())
                + " entries; at most 100 tasks are allowed per bulk call — split the batch"@,
        )
    } else if exists|i: int| 0 <= i < ids.len() && ids[i] <= 0 {
        Some("task_ids must contain only positive integers"@)
    } else {
        None
    }
}

/// Validates the id list of a bulk operation before any write is issued.
pub fn validate_task_ids(task_ids: &[i64]) -> (r: Result<(), Error>)
    ensures
        match task_ids_problem(task_ids@) {
            Some(m) => rejects(r, m),
            None => r is Ok,
        },
{
    if task_ids.len() == 0 {
        return Err(invalid(owned("task_ids must not be empty")));
    }
    if task_ids.len() > MAX_BULK_TASK_IDS {
        let mut m = owned("task_ids has ");
        push_decimal(&mut m, task_ids.len() as u64);
        push_str(
            &mut m,
            " entries; at most 100 tasks are allowed per bulk call — split the batch",
        );
        return Err(invalid(m));
    }
    let mut i: usize = 0;
    while i < task_ids.len()
        invariant
            i <= task_ids.len(),
            0 < task_ids.len() <= MAX_BULK_TASK_IDS,
            forall|j: int| 0 <= j < i ==> task_ids@[j] > 0,
        decreases task_ids.len() - i,
    {
        if task_ids[i] <= 0 {
            assert(task_ids@[i as int] <= 0);
            return Err(invalid(owned("task_ids must contain only positive integers")));
        }
        i = i + 1;
    }
    Ok(())
}

/// The error for an upload over the size limit.
pub fn oversized_upload(size: usize) -> (e: Error)
    ensures
        is_invalid_argument(
            e,
            "attachment is about "@ + decimal(size as nat)
                + " bytes; the maximum supported upload is 20971520 bytes"@,
        ),
{
    let mut m = owned("attachment is about ");
    push_decimal(&mut m, size as u64);
    push_str(&mut m, " bytes; the maximum supported upload is 20971520 bytes");
    invalid(m)
}


// ----- Tool arguments --------------------------------------------------------

#[derive(Debug)]
pub struct ProjectsListArgs {
    pub search: Option<String>,
    pub page: Option<u32>,
    pub per_page: Option<u32>,
    pub is_archived: Option<bool>,
    pub auto_paginate: Option<bool>,
    pub max_pages: Option<u32>,
}

#[derive(Debug)]
pub struct ProjectIdArgs {
    pub project_id: i64,
}

#[derive(Debug)]
pub struct ProjectsCreateArgs {
    pub title: String,
    pub description: Option<String>,
    pub hex_color: Option<String>,
    pub parent_project_id: Option<i64>,
    pub identifier: Option<String>,
    pub is_favorite: Option<bool>,
}

#[derive(Debug)]
pub struct ProjectsUpdateArgs {
    pub project_id: i64,
    pub title: Option<String>,
    pub description: Option<String>,
    pub hex_color: Option<String>,
    pub parent_project_id: Option<i64>,
    pub identifier: Option<String>,
    pub is_archived: Option<bool>,
    pub is_favorite: Option<bool>,
}

#[derive(Debug)]
pub struct TasksListArgs {
    pub page: Option<u32>,
    pub per_page: Option<u32>,
    pub search: Option<String>,
    pub filter: Option<String>,
    pub project_id: Option<i64>,
    pub sort_by: Option<String>,
    pub order_by: Option<String>,
    pub auto_paginate: Option<bool>,
    pub max_pages: Option<u32>,
}

#[derive(Debug)]
pub struct TaskIdArgs {
    pub task_id: i64,
}

#[derive(Debug)]
pub struct TaskUserArgs {
    pub task_id: i64,
    pub user_id: i64,
}

#[derive(Debug)]
pub struct BulkTaskIdsArgs {
    pub task_ids: Vec<i64>,
}

#[derive(Debug)]
pub struct TasksBulkMoveArgs {
    pub task_ids: Vec<i64>,
    pub project_id: i64,
}

#[derive(Debug)]
pub struct BulkTaskLabelArgs {
    pub task_ids: Vec<i64>,
    pub label_id: i64,
}

#[derive(Debug)]
pub struct BulkTaskUserArgs {
    pub task_ids: Vec<i64>,
    pub user_id: i64,
}

#[derive(Debug)]
pub struct LabelsListArgs {
    pub search: Option<String>,
    pub page: Option<u32>,
    pub per_page: Option<u32>,
    pub auto_paginate: Option<bool>,
    pub max_pages: Option<u32>,
}

#[derive(Debug)]
pub struct LabelsCreateArgs {
    pub title: String,
    pub description: Option<String>,
    pub hex_color: Option<String>,
}

#[derive(Debug)]
pub struct LabelsUpdateArgs {
    pub label_id: i64,
    pub title: Option<String>,
    pub description: Option<String>,
    pub hex_color: Option<String>,
}

#[derive(Debug)]
pub struct LabelIdArgs {
    pub label_id: i64,
}

#[derive(Debug)]
pub struct TaskLabelArgs {
    pub task_id: i64,
    pub label_id: i64,
}

#[derive(Debug)]
pub struct TaskRelationArgs {
    pub task_id: i64,
    pub other_task_id: i64,
    pub relation_kind: RelationKind,
}

/// Task date a relative reminder is anchored to.
#[derive(Debug, Clone, Copy, PartialEq, Eq, Structural)]
pub enum ReminderRelativeTo {
    DueDate,
    StartDate,
    EndDate,
}

/// The snake_case name Vikunja uses for a reminder anchor.
pub open spec fn relative_to_name(a: ReminderRelativeTo) -> Seq<char> {
    match a {
        ReminderRelativeTo::DueDate => "due_date"@,
        ReminderRelativeTo::StartDate => "start_date"@,
        ReminderRelativeTo::EndDate => "end_date"@,
    }
}

/// The identifier of each anchor, as written in this enum.
pub open spec fn anchor_identifier(a: ReminderRelativeTo) -> Seq<char> {
    match a {
        ReminderRelativeTo::DueDate => "DueDate"@,
        ReminderRelativeTo::StartDate => "StartDate"@,
        ReminderRelativeTo::EndDate => "EndDate"@,
    }
}

/// Each anchor goes on the wire as the snake_case form of its own name:
/// `DueDate` as `due_date`, `StartDate` as `start_date`, `EndDate` as
/// `end_date`.
pub proof fn lemma_anchor_names_are_snake_case(a: ReminderRelativeTo)
    ensures
        relative_to_name(a) == snake_case(anchor_identifier(a)),
{
    reveal_strlit("DueDate");
    reveal_strlit("StartDate");
    reveal_strlit("EndDate");
    reveal_strlit("due_date");
    reveal_strlit("start_date");
    reveal_strlit("end_date");
    reveal_with_fuel(snake_case, 10);
    assert(snake_case("DueDate"@) =~= "due_date"@);
    assert(snake_case("StartDate"@) =~= "start_date"@);
    assert(snake_case("EndDate"@) =~= "end_date"@);
}

impl ReminderRelativeTo {
    /// The snake_case string Vikunja uses for this anchor on the wire.
    pub fn as_str(self) -> (r: &'static str)
        ensures
            r@ == relative_to_name(self),
    {
        match self {
            ReminderRelativeTo::DueDate => "due_date",
            ReminderRelativeTo::StartDate => "start_date",
            ReminderRelativeTo::EndDate => "end_date",
        }
    }
}

/// One reminder to write: an absolute time (`reminder` or
/// `reminder_shortcut`) or a relative one (`relative_to` +
/// `relative_period_seconds`), never both.
#[derive(Debug)]
pub struct ReminderInput {
    pub reminder: Option<String>,
    pub reminder_shortcut: Option<String>,
    pub relative_to: Option<ReminderRelativeTo>,
    pub relative_period_seconds: Option<i64>,
}

#[derive(Debug)]
pub struct TaskRemindersAddArgs {
    pub task_id: i64,
    pub reminder: ReminderInput,
}

#[derive(Debug)]
pub struct TaskRemindersSetArgs {
    pub task_id: i64,
    pub reminders: Vec<ReminderInput>,
}

#[derive(Debug)]
pub struct CommentsCreateArgs {
    pub task_id: i64,
    pub comment: String,
}

#[derive(Debug)]
pub struct CommentsUpdateArgs {
    pub task_id: i64,
    pub comment_id: i64,
    pub comment: String,
}

#[derive(Debug)]
pub struct CommentIdArgs {
    pub task_id: i64,
    pub comment_id: i64,
}

#[derive(Debug)]
pub struct AttachmentsListArgs {
    pub task_id: i64,
    pub page: Option<u32>,
    pub per_page: Option<u32>,
    pub auto_paginate: Option<bool>,
    pub max_pages: Option<u32>,
}

#[derive(Debug)]
pub struct AttachmentsUploadArgs {
    pub task_id: i64,
    pub file_name: Option<String>,
    pub content_base64: Option<String>,
    pub file_path: Option<String>,
}

#[derive(Debug)]
pub struct AttachmentsDownloadArgs {
    pub task_id: i64,
    pub attachment_id: i64,
    pub save_path: Option<String>,
}

#[derive(Debug)]
pub struct AttachmentIdArgs {
    pub task_id: i64,
    pub attachment_id: i64,
}

#[derive(Debug)]
pub struct UsersSearchArgs {
    pub search: Option<String>,
}

#[derive(Debug)]
pub struct TeamsListArgs {
    pub search: Option<String>,
    pub page: Option<u32>,
    pub per_page: Option<u32>,
    pub project_id: Option<i64>,
    pub auto_paginate: Option<bool>,
    pub max_pages: Option<u32>,
}

#[derive(Debug)]
pub struct FiltersListArgs {}

#[derive(Debug)]
pub struct FilterIdArgs {
    pub filter_id: i64,
}

#[derive(Debug)]
pub struct FiltersCreateArgs {
    pub title: String,
    pub description: Option<String>,
    pub filter: String,
    pub sort_by: Option<Vec<String>>,
    pub order_by: Option<Vec<String>>,
    pub filter_timezone: Option<String>,
    pub filter_include_nulls: Option<bool>,
    pub is_favorite: Option<bool>,
}

#[derive(Debug)]
pub struct FiltersUpdateArgs {
    pub filter_id: i64,
    pub title: Option<String>,
    pub description: Option<String>,
    pub filter: Option<String>,
    pub sort_by: Option<Vec<String>>,
    pub order_by: Option<Vec<String>>,
    pub filter_timezone: Option<String>,
    pub filter_include_nulls: Option<bool>,
    pub is_favorite: Option<bool>,
}

#[derive(Debug)]
pub struct FilterTasksArgs {
    pub filter_id: i64,
    pub page: Option<u32>,
    pub per_page: Option<u32>,
}

#[derive(Debug)]
pub struct DatesResolveArgs {
    pub expression: String,
    pub reference_time: Option<String>,
    pub target: Option<String>,
}

#[derive(Debug)]
pub struct ProjectViewsListArgs {
    pub project_id: i64,
    pub page: Option<u32>,
    pub per_page: Option<u32>,
}

#[derive(Debug)]
pub struct BucketsListArgs {
    pub project_id: i64,
    pub view_id: Option<i64>,
    pub page: Option<u32>,
    pub per_page: Option<u32>,
}

impl ProjectViewsListArgs {
    /// Checks the project id and the page arguments.
    pub fn validate(&self) -> (r: Result<(i64, PageParams), Error>)
        ensures
            self.project_id <= 0 ==> rejects(r, msg_not_positive("project_id"@)),
            self.project_id > 0 ==> match page_problem(self.page, self.per_page) {
                Some(m) => rejects(r, m),
                None => r == Ok::<(i64, PageParams), Error>(
                    (self.project_id, PageParams { page: self.page, per_page: self.per_page }),
                ),
            },
    {
        let project_id = positive("project_id", self.project_id)?;
        let params = page_params(self.page, self.per_page)?;
        Ok((project_id, params))
    }
}

impl BucketsListArgs {
    /// Checks the project id, the view id when one is given, and the page
    /// arguments.
    pub fn validate(&self) -> (r: Result<(i64, PageParams), Error>)
        ensures
            self.project_id <= 0 ==> rejects(r, msg_not_positive("project_id"@)),
            self.project_id > 0 && (self.view_id matches Some(v) && v <= 0) ==> rejects(
                r,
                msg_not_positive("view_id"@),
            ),
            self.project_id > 0 && !(self.view_id matches Some(v) && v <= 0) ==> match page_problem(
                self.page,
                self.per_page,
            ) {
                Some(m) => rejects(r, m),
                None => r == Ok::<(i64, PageParams), Error>(
                    (self.project_id, PageParams { page: self.page, per_page: self.per_page }),
                ),
            },
    {
        let project_id = positive("project_id", self.project_id)?;
        if let Some(view_id) = self.view_id {
            positive("view_id", view_id)?;
        }
        let params = page_params(self.page, self.per_page)?;
        Ok((project_id, params))
    }
}

/// What is wrong with the page arguments, if anything.
pub open spec fn page_problem(page: Option<u32>, per_page: Option<u32>) -> Option<Seq<char>> {
    if page == Some(0u32) {
        Some("page must be >= 1"@)
    } else if per_page == Some(0u32) {
        Some("per_page must be >= 1"@)
    } else {
        None
    }
}

// ----- Kanban views ----------------------------------------------------------

/// What the bucket listing reads of a project view.
#[derive(Debug, Clone, PartialEq)]
pub struct ViewListing {
    pub id: i64,
    pub title: String,
    /// `list`, `gantt`, `table` or `kanban`.
    pub view_kind: String,
    pub default_bucket_id: i64,
    pub done_bucket_id: i64,
}

pub open spec fn is_kanban(v: ViewListing) -> bool {
    v.view_kind@ == "kanban"@
}

pub open spec fn no_kanban_message(project_id: i64) -> Seq<char> {
    "project "@ + int_decimal(project_id as int)
        + " has no kanban view; check its views with vikunja_project_views_list or pass view_id explicitly"@
}

/// The first kanban view of a project's views, or the error naming the
/// project when it has none.
pub fn first_kanban_view(views: &[ViewListing], project_id: i64) -> (r: Result<usize, Error>)
    ensures
        match r {
            Ok(i) => i < views@.len() && is_kanban(views@[i as int]) && forall|j: int|
                0 <= j < i ==> !is_kanban(#[trigger] views@[j]),
            Err(e) => (forall|j: int| 0 <= j < views@.len() ==> !is_kanban(#[trigger] views@[j]))
                && is_invalid_argument(e, no_kanban_message(project_id)),
        },
{
    let mut i: usize = 0;
    while i < views.len()
        invariant
            i <= views@.len(),
            forall|j: int| 0 <= j < i ==> !is_kanban(#[trigger] views@[j]),
        decreases views@.len() - i,
    {
        if str_eq(views[i].view_kind.as_str(), "kanban") {
            return Ok(i);
        }
        i = i + 1;
    }
    let mut m = owned("project ");
    push_int(&mut m, project_id);
    push_str(
        &mut m,
        " has no kanban view; check its views with vikunja_project_views_list or pass view_id explicitly",
    );
    Err(invalid(m))
}

/// Whether a bucket is its view's default and its done bucket; unknown
/// (`None`) when the view's definition was not read.
pub fn bucket_flags(view: Option<&ViewListing>, bucket_id: i64) -> (r: (Option<bool>, Option<bool>))
    ensures
        r == match view {
            Some(v) => (Some(v.default_bucket_id == bucket_id), Some(v.done_bucket_id == bucket_id)),
            None => (None::<bool>, None::<bool>),
        },
{
    match view {
        Some(v) => (Some(v.default_bucket_id == bucket_id), Some(v.done_bucket_id == bucket_id)),
        None => (None, None),
    }
}

// ----- Tool results ----------------------------------------------------------

/// Metadata describing a bounded auto-paginated fetch.
#[derive(Debug, Clone, Copy, PartialEq, Eq)]
pub struct AutoPagination {
    /// Number of pages actually fetched (at least 1).
    pub pages_read: u32,
    /// The page cap the fetch was bounded by.
    pub page_cap: u32,
    /// True when the page cap was hit while the server still reported more
    /// pages.
    pub truncated: bool,
    /// Total number of items returned across all fetched pages.
    pub count: usize,
}

impl AutoPagination {
    pub fn from_bounded<T>(bounded: &BoundedPage<T>) -> (r: Self)
        ensures
            r.pages_read == bounded.pages_read,
            r.page_cap == bounded.page_cap,
            r.truncated == bounded.truncated,
            r.count == bounded.items@.len(),
    {
        AutoPagination {
            pages_read: bounded.pages_read,
            page_cap: bounded.page_cap,
            truncated: bounded.truncated,
            count: bounded.items.len(),
        }
    }
}

#[derive(Debug)]
pub struct SavedFilterListResult {
    pub filters: Vec<SavedFilterSummary>,
}

#[derive(Debug)]
pub struct DatesResolveResult {
    pub expression: String,
    pub reference_time: String,
    pub resolved: Option<String>,
    pub clears_date: bool,
    pub timezone_description: String,
    pub default_time_used: Option<String>,
}

#[derive(Debug)]
pub struct LabelListResult {
    pub labels: Vec<Label>,
    pub pagination: PageInfo,
    pub auto_pagination: Option<AutoPagination>,
}

#[derive(Debug)]
pub struct TeamListResult {
    pub teams: Vec<Team>,
    pub pagination: PageInfo,
    pub auto_pagination: Option<AutoPagination>,
}

#[derive(Debug)]
pub struct UserListResult {
    pub users: Vec<User>,
}

#[derive(Debug)]
pub struct CommentListResult {
    pub comments: Vec<TaskComment>,
}

#[derive(Debug)]
pub struct ReminderListResult {
    pub task_id: i64,
    pub reminders: Vec<TaskReminder>,
}

#[derive(Debug)]
pub struct AttachmentListResult {
    pub attachments: Vec<TaskAttachment>,
    pub pagination: PageInfo,
    pub auto_pagination: Option<AutoPagination>,
}

/// Result of a mutation that only returns a confirmation message.
#[derive(Debug)]
pub struct OperationResult {
    pub ok: bool,
    pub message: String,
}

#[derive(Debug)]
pub struct UploadResult {
    pub ok: bool,
    pub message: String,
    /// The uploaded attachment, when it could be identified after upload.
    pub attachment: Option<TaskAttachment>,
}

#[derive(Debug)]
pub struct DownloadResult {
    pub task_id: i64,
    pub attachment_id: i64,
    /// Content type reported by Vikunja.
    pub mime: Option<String>,
    pub size_bytes: u64,
    /// Where the file was written, when `save_path` was given.
    pub saved_to: Option<String>,
    /// Base64 file content, when no `save_path` was given.
    pub content_base64: Option<String>,
}

// ----- Bulk operations -------------------------------------------------------

/// Structured error detail for one failed item of a bulk operation. Carries
/// the same safe fields as MCP error data: never tokens or headers.
#[derive(Debug)]
pub struct BulkItemError {
    /// Error category: `auth`, `forbidden`, `not_found`, `validation`,
    /// `conflict`, `rate_limited`, `server`, `network`, `timeout`,
    /// `invalid_response`, `io`, `too_large`, `invalid_argument` or `other`.
    pub kind: String,
    /// HTTP status reported by Vikunja, when the API answered.
    pub http_status: Option<u16>,
    /// Vikunja-specific error code from the response body, if present.
    pub vikunja_error_code: Option<i64>,
    /// Human-readable description of the failure.
    pub message: String,
}

/// Whether `d` is the bulk-item description of `e`: its category, the
/// HTTP status and Vikunja code of an API error, and the error's text.
pub open spec fn describes(d: BulkItemError, e: Error) -> bool {
    &&& d.kind@ == category(e)
    &&& d.http_status == (match e {
        Error::Api { status, .. } => Some(status),
        _ => None,
    })
    &&& d.vikunja_error_code == (match e {
        Error::Api { code, .. } => code,
        _ => None,
    })
    &&& d.message@ == error_text(e)
}

impl BulkItemError {
    pub fn from_error(err: &Error) -> (r: Self)
        ensures
            describes(r, *err),
    {
        let (http_status, vikunja_error_code): (Option<u16>, Option<i64>) = match err {
            Error::Api { status, code, .. } => (Some(*status), *code),
            _ => (None, None),
        };
        let kind = err.metric_label();
        BulkItemError { kind: owned(kind), http_status, vikunja_error_code, message: err.message() }
    }
}

/// What one successful bulk item produced: the resulting task, or a
/// confirmation message for operations that do not return the task.
#[derive(Debug)]
pub enum BulkOutcome<T> {
    Task(T),
    Message(String),
}

/// Outcome of one task within a bulk operation.
#[derive(Debug)]
pub struct BulkTaskResult<T> {
    pub task_id: i64,
    pub ok: bool,
    /// Operation applied, e.g. `complete`, `update`, `label_add`.
    pub operation: String,
    /// The resulting task, for operations that return the task.
    pub task: Option<T>,
    /// Confirmation message, for operations that do not return a task.
    pub message: Option<String>,
    /// Failure detail when `ok` is false.
    pub error: Option<BulkItemError>,
}

/// Records the outcome of one bulk item. A failure is recorded like a
/// success and does not stop the remaining items.
pub fn bulk_item_result<T>(task_id: i64, operation: &str, outcome: Result<BulkOutcome<T>, Error>) -> (r:
    BulkTaskResult<T>)
    ensures
        r.task_id == task_id,
        r.operation@ == operation@,
        r.ok == outcome is Ok,
        match outcome {
            Ok(BulkOutcome::Task(t)) => r.task == Some(t) && r.message is None && r.error is None,
            Ok(BulkOutcome::Message(m)) => r.task is None && r.message == Some(m) && r.error is None,
            Err(e) => r.task is None && r.message is None && (r.error matches Some(d) && describes(d, e)),
        },
{
    match outcome {
        Ok(BulkOutcome::Task(task)) => BulkTaskResult {
            task_id,
            ok: true,
            operation: owned(operation),
            task: Some(task),
            message: None,
            error: None,
        },
        Ok(BulkOutcome::Message(message)) => BulkTaskResult {
            task_id,
            ok: true,
            operation: owned(operation),
            task: None,
            message: Some(message),
            error: None,
        },
        Err(err) => BulkTaskResult {
            task_id,
            ok: false,
            operation: owned(operation),
            task: None,
            message: None,
            error: Some(BulkItemError::from_error(&err)),
        },
    }
}

/// Result of a bulk task operation: aggregate counts plus one entry per
/// requested task id, in input order.
#[derive(Debug)]
pub struct BulkOperationResult<T> {
    /// True only when every task succeeded (`failed == 0`).
    pub ok: bool,
    /// Number of task ids processed.
    pub total: usize,
    /// Number of tasks that succeeded.
    pub succeeded: usize,
    /// Number of tasks that failed.
    pub failed: usize,
    /// Per-task outcomes, in the same order as the requested task ids.
    pub results: Vec<BulkTaskResult<T>>,
}

/// How many of the results report success.
pub open spec fn count_ok<T>(s: Seq<BulkTaskResult<T>>) -> nat
    decreases s.len(),
{
    if s.len() == 0 {
        0
    } else {
        count_ok(s.drop_last()) + if s.last().ok {
            1nat
        } else {
            0nat
        }
    }
}

proof fn lemma_count_ok_bounded<T>(s: Seq<BulkTaskResult<T>>)
    ensures
        count_ok(s) <= s.len(),
    decreases s.len(),
{
    if s.len() > 0 {
        lemma_count_ok_bounded(s.drop_last());
    }
}

/// Every result is a success exactly when the success count is the number
/// of results.
pub proof fn lemma_count_ok_all<T>(s: Seq<BulkTaskResult<T>>)
    ensures
        count_ok(s) == s.len() <==> forall|i: int| 0 <= i < s.len() ==> #[trigger] s[i].ok,
    decreases s.len(),
{
    if s.len() > 0 {
        let p = s.drop_last();
        lemma_count_ok_all(p);
        lemma_count_ok_bounded(p);
        if count_ok(s) == s.len() {
            assert forall|i: int| 0 <= i < s.len() implies #[trigger] s[i].ok by {
                if i < s.len() - 1 {
                    assert(s[i] == p[i]);
                }
            }
        }
        if forall|i: int| 0 <= i < s.len() ==> #[trigger] s[i].ok {
            assert forall|i: int| 0 <= i < p.len() implies #[trigger] p[i].ok by {
                assert(p[i] == s[i]);
            }
            assert(s[s.len() - 1].ok);
        }
    }
}

impl<T> BulkOperationResult<T> {
    /// Aggregates per-task outcomes, keeping them in order.
    pub fn from_results(results: Vec<BulkTaskResult<T>>) -> (r: Self)
        ensures
            r.results@ == results@,
            r.total == results@.len(),
            r.succeeded == count_ok(results@),
            r.failed == r.total - r.succeeded,
            r.ok == (r.failed == 0),
    {
        let mut succeeded: usize = 0;
        let mut i: usize = 0;
        while i < results.len()
            invariant
                i <= results.len(),
                succeeded == count_ok(results@.take(i as int)),
                succeeded <= i,
            decreases results.len() - i,
        {
            assert(results@.take(i as int) == results@.take((i + 1) as int).drop_last());
            if results[i].ok {
                succeeded = succeeded + 1;
            }
            i = i + 1;
        }
        assert(results@.take(results.len() as int) == results@);
        let total = results.len();
        BulkOperationResult { ok: succeeded == total, total, succeeded, failed: total - succeeded, results }
    }
}

/// A bulk result is `ok` exactly when every item succeeded, and the counts
/// add up to the number of items.
pub proof fn lemma_bulk_ok_iff_all_succeeded<T>(r: BulkOperationResult<T>, results: Seq<BulkTaskResult<T>>)
    requires
        r.results@ == results,
        r.total == results.len(),
        r.succeeded == count_ok(results),
        r.failed == r.total - r.succeeded,
        r.ok == (r.failed == 0),
    ensures
        r.succeeded + r.failed == r.total,
        r.ok <==> forall|i: int| 0 <= i < results.len() ==> #[trigger] results[i].ok,
{
    lemma_count_ok_bounded(results);
    lemma_count_ok_all(results);
}

// ----- Confirmation messages -------------------------------------------------

/// `user {user_id} assigned to task {task_id}`.
pub fn user_assigned_message(user_id: i64, task_id: i64) -> (s: String)
    ensures
        s@ == "user "@ + int_decimal(user_id as int) + " assigned to task "@ + int_decimal(
            task_id as int,
        ),
{
    let mut s = owned("user ");
    push_int(&mut s, user_id);
    push_str(&mut s, " assigned to task ");
    push_int(&mut s, task_id);
    s
}

/// `label {label_id} added to task {task_id}`.
pub fn label_added_message(label_id: i64, task_id: i64) -> (s: String)
    ensures
        s@ == "label "@ + int_decimal(label_id as int) + " added to task "@ + int_decimal(
            task_id as int,
        ),
{
    let mut s = owned("label ");
    push_int(&mut s, label_id);
    push_str(&mut s, " added to task ");
    push_int(&mut s, task_id);
    s
}

/// `label {id} ("{title}") deleted`, for the label the delete endpoint
/// returns.
pub fn label_deleted_message(label: &Label) -> (s: String)
    ensures
        s@ == "label "@ + int_decimal(label.id as int) + " (\""@ + label.title@ + "\") deleted"@,
{
    let mut s = owned("label ");
    push_int(&mut s, label.id);
    push_str(&mut s, " (\"");
    push_str(&mut s, label.title.as_str());
    push_str(&mut s, "\") deleted");
    s
}

// ----- Requests built from tool arguments -----------------------------------

/// Whether a text argument is blank (empty after trimming whitespace).
pub open spec fn blank(s: Seq<char>) -> bool {
    trim(s).len() == 0
}

/// What a paginated list call does with its page arguments: the
/// auto-pagination arguments are checked first, then the page parameters.
pub open spec fn list_plan_spec(
    page: Option<u32>,
    per_page: Option<u32>,
    auto_paginate: Option<bool>,
    max_pages: Option<u32>,
) -> Result<ListPlan, Seq<char>> {
    match auto_cap_outcome(page, auto_paginate, max_pages) {
        Err(m) => Err(m),
        Ok(cap) => if page == Some(0u32) {
            Err("page must be >= 1"@)
        } else if per_page == Some(0u32) {
            Err("per_page must be >= 1"@)
        } else {
            match cap {
                Some(c) => Ok(ListPlan::Auto { page_cap: c, per_page }),
                None => Ok(ListPlan::Single(PageParams { page, per_page })),
            }
        },
    }
}

/// `r` is the value `o` describes, or the invalid-argument error with the
/// message `o` gives.
pub open spec fn outcome_is<T>(r: Result<T, Error>, o: Result<T, Seq<char>>) -> bool {
    match (r, o) {
        (Ok(a), Ok(b)) => a == b,
        (Err(e), Err(m)) => is_invalid_argument(e, m),
        _ => false,
    }
}

pub open spec fn opt_vec_view(v: Option<Vec<String>>) -> Option<Seq<Seq<char>>> {
    match v {
        Some(x) => Some(string_seq_view(x@)),
        None => None,
    }
}

fn as_slice_opt(v: &Option<Vec<String>>) -> (r: Option<&[String]>)
    ensures
        opt_slice_view(r) == opt_vec_view(*v),
{
    match v {
        Some(x) => Some(x.as_slice()),
        None => None,
    }
}

/// The problem with an optional `filter_timezone`: it must not be blank.
pub open spec fn timezone_problem(tz: Option<String>) -> Option<Seq<char>> {
    match tz {
        Some(t) => if blank(t@) {
            Some(msg_empty("filter_timezone"@))
        } else {
            None
        },
        None => None,
    }
}

fn check_timezone(tz: &Option<String>) -> (r: Result<(), Error>)
    ensures
        match timezone_problem(*tz) {
            Some(m) => rejects(r, m),
            None => r is Ok,
        },
{
    match tz {
        Some(t) => non_empty("filter_timezone", t.as_str()),
        None => Ok(()),
    }
}

/// The first problem with the arguments of `vikunja_filters_create`.
pub open spec fn filters_create_problem(a: FiltersCreateArgs) -> Option<Seq<char>> {
    if blank(a.title@) {
        Some(msg_empty("title"@))
    } else if filter_problem("filter"@, a.filter@) is Some {
        filter_problem("filter"@, a.filter@)
    } else if sort_order_problem(opt_vec_view(a.sort_by), opt_vec_view(a.order_by)) is Some {
        sort_order_problem(opt_vec_view(a.sort_by), opt_vec_view(a.order_by))
    } else {
        timezone_problem(a.filter_timezone)
    }
}

/// The first problem with the arguments of `vikunja_filters_update`.
pub open spec fn filters_update_problem(a: FiltersUpdateArgs) -> Option<Seq<char>> {
    if a.filter_id <= 0 {
        Some(msg_not_positive("filter_id"@))
    } else if a.title matches Some(t) && blank(t@) {
        Some(msg_empty("title"@))
    } else if a.filter matches Some(f) && filter_problem("filter"@, f@) is Some {
        filter_problem("filter"@, a.filter.unwrap()@)
    } else if sort_order_problem(opt_vec_view(a.sort_by), opt_vec_view(a.order_by)) is Some {
        sort_order_problem(opt_vec_view(a.sort_by), opt_vec_view(a.order_by))
    } else {
        timezone_problem(a.filter_timezone)
    }
}

/// A saved-filter query that sets nothing.
pub open spec fn query_is_empty(q: SavedFilterQuery) -> bool {
    &&& q.filter is None
    &&& q.sort_by is None
    &&& q.order_by is None
    &&& q.filter_timezone is None
    &&& q.filter_include_nulls is None
}

impl ProjectsListArgs {
    pub fn plan(&self) -> (r: Result<ListPlan, Error>)
        ensures
            outcome_is(r, list_plan_spec(self.page, self.per_page, self.auto_paginate, self.max_pages)),
    {
        list_plan(self.page, self.per_page, self.auto_paginate, self.max_pages)
    }
}

impl ProjectsCreateArgs {
    /// The create payload; the title must not be blank.
    pub fn into_body(self) -> (r: Result<ProjectCreate, Error>)
        ensures
            blank(self.title@) ==> rejects(r, msg_empty("title"@)),
            !blank(self.title@) ==> r == Ok::<ProjectCreate, Error>(
                ProjectCreate {
                    title: self.title,
                    description: self.description,
                    hex_color: self.hex_color,
                    parent_project_id: self.parent_project_id,
                    identifier: self.identifier,
                    is_favorite: self.is_favorite,
                },
            ),
    {
        non_empty("title", self.title.as_str())?;
        Ok(
            ProjectCreate {
                title: self.title,
                description: self.description,
                hex_color: self.hex_color,
                parent_project_id: self.parent_project_id,
                identifier: self.identifier,
                is_favorite: self.is_favorite,
            },
        )
    }
}

impl ProjectsUpdateArgs {
    /// The project id and the partial update; only given fields change.
    pub fn into_patch(self) -> (r: Result<(i64, ProjectUpdate), Error>)
        ensures
            self.project_id <= 0 ==> rejects(r, msg_not_positive("project_id"@)),
            self.project_id > 0 ==> r == Ok::<(i64, ProjectUpdate), Error>(
                (
                    self.project_id,
                    ProjectUpdate {
                        title: self.title,
                        description: self.description,
                        hex_color: self.hex_color,
                        parent_project_id: self.parent_project_id,
                        identifier: self.identifier,
                        is_archived: self.is_archived,
                        is_favorite: self.is_favorite,
                    },
                ),
            ),
    {
        let id = positive("project_id", self.project_id)?;
        Ok(
            (
                id,
                ProjectUpdate {
                    title: self.title,
                    description: self.description,
                    hex_color: self.hex_color,
                    parent_project_id: self.parent_project_id,
                    identifier: self.identifier,
                    is_archived: self.is_archived,
                    is_favorite: self.is_favorite,
                },
            ),
        )
    }
}

impl TasksListArgs {
    /// The fetch plan and the task query of `vikunja_tasks_list`: page
    /// arguments first, then the optional project id.
    pub fn into_options(self) -> (r: Result<(ListPlan, TaskListOptions), Error>)
        ensures
            match list_plan_spec(self.page, self.per_page, self.auto_paginate, self.max_pages) {
                Err(m) => rejects(r, m),
                Ok(plan) => if self.project_id matches Some(p) && p <= 0 {
                    rejects(r, msg_not_positive("project_id"@))
                } else {
                    r == Ok::<(ListPlan, TaskListOptions), Error>(
                        (
                            plan,
                            TaskListOptions {
                                page: self.page,
                                per_page: self.per_page,
                                search: self.search,
                                filter: self.filter,
                                project_id: self.project_id,
                                sort_by: self.sort_by,
                                order_by: self.order_by,
                                filter_timezone: None,
                                filter_include_nulls: None,
                            },
                        ),
                    )
                },
            },
    {
        let plan = list_plan(self.page, self.per_page, self.auto_paginate, self.max_pages)?;
        if let Some(project_id) = self.project_id {
            positive("project_id", project_id)?;
        }
        Ok(
            (
                plan,
                TaskListOptions {
                    page: self.page,
                    per_page: self.per_page,
                    search: self.search,
                    filter: self.filter,
                    project_id: self.project_id,
                    sort_by: self.sort_by,
                    order_by: self.order_by,
                    filter_timezone: None,
                    filter_include_nulls: None,
                },
            ),
        )
    }
}

impl LabelsListArgs {
    pub fn plan(&self) -> (r: Result<ListPlan, Error>)
        ensures
            outcome_is(r, list_plan_spec(self.page, self.per_page, self.auto_paginate, self.max_pages)),
    {
        list_plan(self.page, self.per_page, self.auto_paginate, self.max_pages)
    }
}

impl LabelsCreateArgs {
    /// The create payload; the title must not be blank.
    pub fn into_body(self) -> (r: Result<LabelCreate, Error>)
        ensures
            blank(self.title@) ==> rejects(r, msg_empty("title"@)),
            !blank(self.title@) ==> r == Ok::<LabelCreate, Error>(
                LabelCreate {
                    title: self.title,
                    description: self.description,
                    hex_color: self.hex_color,
                },
            ),
    {
        non_empty("title", self.title.as_str())?;
        Ok(LabelCreate { title: self.title, description: self.description, hex_color: self.hex_color })
    }
}

impl LabelsUpdateArgs {
    /// The label id and the partial update.
    pub fn into_patch(self) -> (r: Result<(i64, LabelUpdate), Error>)
        ensures
            self.label_id <= 0 ==> rejects(r, msg_not_positive("label_id"@)),
            self.label_id > 0 ==> r == Ok::<(i64, LabelUpdate), Error>(
                (
                    self.label_id,
                    LabelUpdate {
                        title: self.title,
                        description: self.description,
                        hex_color: self.hex_color,
                    },
                ),
            ),
    {
        let id = positive("label_id", self.label_id)?;
        Ok((id, LabelUpdate { title: self.title, description: self.description, hex_color: self.hex_color }))
    }
}

impl CommentsCreateArgs {
    /// The task id; the comment must not be blank.
    pub fn validate(&self) -> (r: Result<i64, Error>)
        ensures
            self.task_id <= 0 ==> rejects(r, msg_not_positive("task_id"@)),
            self.task_id > 0 && blank(self.comment@) ==> rejects(r, msg_empty("comment"@)),
            self.task_id > 0 && !blank(self.comment@) ==> r == Ok::<i64, Error>(self.task_id),
    {
        let id = positive("task_id", self.task_id)?;
        non_empty("comment", self.comment.as_str())?;
        Ok(id)
    }
}

impl CommentsUpdateArgs {
    /// The task and comment ids; the new comment must not be blank.
    pub fn validate(&self) -> (r: Result<(i64, i64), Error>)
        ensures
            self.task_id <= 0 ==> rejects(r, msg_not_positive("task_id"@)),
            self.task_id > 0 && self.comment_id <= 0 ==> rejects(r, msg_not_positive("comment_id"@)),
            self.task_id > 0 && self.comment_id > 0 && blank(self.comment@) ==> rejects(
                r,
                msg_empty("comment"@),
            ),
            self.task_id > 0 && self.comment_id > 0 && !blank(self.comment@) ==> r == Ok::<
                (i64, i64),
                Error,
            >((self.task_id, self.comment_id)),
    {
        let task_id = positive("task_id", self.task_id)?;
        let comment_id = positive("comment_id", self.comment_id)?;
        non_empty("comment", self.comment.as_str())?;
        Ok((task_id, comment_id))
    }
}

impl AttachmentsListArgs {
    /// The task id and fetch plan of `vikunja_task_attachments_list`.
    pub fn plan(&self) -> (r: Result<(i64, ListPlan), Error>)
        ensures
            self.task_id <= 0 ==> rejects(r, msg_not_positive("task_id"@)),
            self.task_id > 0 ==> match list_plan_spec(
                self.page,
                self.per_page,
                self.auto_paginate,
                self.max_pages,
            ) {
                Err(m) => rejects(r, m),
                Ok(p) => r == Ok::<(i64, ListPlan), Error>((self.task_id, p)),
            },
    {
        let id = positive("task_id", self.task_id)?;
        let plan = list_plan(self.page, self.per_page, self.auto_paginate, self.max_pages)?;
        Ok((id, plan))
    }
}

impl TeamsListArgs {
    /// The fetch plan and the optional project of `vikunja_teams_list`.
    pub fn plan(&self) -> (r: Result<(ListPlan, Option<i64>), Error>)
        ensures
            match list_plan_spec(self.page, self.per_page, self.auto_paginate, self.max_pages) {
                Err(m) => rejects(r, m),
                Ok(p) => if self.project_id matches Some(id) && id <= 0 {
                    rejects(r, msg_not_positive("project_id"@))
                } else {
                    r == Ok::<(ListPlan, Option<i64>), Error>((p, self.project_id))
                },
            },
    {
        let plan = list_plan(self.page, self.per_page, self.auto_paginate, self.max_pages)?;
        let project_id = match self.project_id {
            Some(id) => Some(positive("project_id", id)?),
            None => None,
        };
        Ok((plan, project_id))
    }
}

impl FiltersCreateArgs {
    /// The create payload of a saved filter, after validating the title,
    /// the filter expression, the sort arguments and the timezone.
    pub fn into_body(self) -> (r: Result<SavedFilterCreate, Error>)
        ensures
            match filters_create_problem(self) {
                Some(m) => rejects(r, m),
                None => r == Ok::<SavedFilterCreate, Error>(
                    SavedFilterCreate {
                        title: self.title,
                        description: self.description,
                        filters: SavedFilterQuery {
                            filter: Some(self.filter),
                            sort_by: self.sort_by,
                            order_by: self.order_by,
                            filter_timezone: self.filter_timezone,
                            filter_include_nulls: self.filter_include_nulls,
                        },
                        is_favorite: self.is_favorite,
                    },
                ),
            },
    {
        non_empty("title", self.title.as_str())?;
        validate_filter_expression("filter", self.filter.as_str())?;
        validate_sort_order(as_slice_opt(&self.sort_by), as_slice_opt(&self.order_by))?;
        check_timezone(&self.filter_timezone)?;
        Ok(
            SavedFilterCreate {
                title: self.title,
                description: self.description,
                filters: SavedFilterQuery {
                    filter: Some(self.filter),
                    sort_by: self.sort_by,
                    order_by: self.order_by,
                    filter_timezone: self.filter_timezone,
                    filter_include_nulls: self.filter_include_nulls,
                },
                is_favorite: self.is_favorite,
            },
        )
    }
}

impl FiltersUpdateArgs {
    /// The filter id and partial update of a saved filter; the query is
    /// only sent when at least one of its fields is given.
    pub fn into_patch(self) -> (r: Result<(i64, SavedFilterUpdate), Error>)
        ensures
            match filters_update_problem(self) {
                Some(m) => rejects(r, m),
                None => {
                    let q = SavedFilterQuery {
                        filter: self.filter,
                        sort_by: self.sort_by,
                        order_by: self.order_by,
                        filter_timezone: self.filter_timezone,
                        filter_include_nulls: self.filter_include_nulls,
                    };
                    r == Ok::<(i64, SavedFilterUpdate), Error>(
                        (
                            self.filter_id,
                            SavedFilterUpdate {
                                title: self.title,
                                description: self.description,
                                filters: if query_is_empty(q) {
                                    None
                                } else {
                                    Some(q)
                                },
                                is_favorite: self.is_favorite,
                            },
                        ),
                    )
                },
            },
    {
        let id = positive("filter_id", self.filter_id)?;
        if let Some(title) = &self.title {
            non_empty("title", title.as_str())?;
        }
        if let Some(filter) = &self.filter {
            validate_filter_expression("filter", filter.as_str())?;
        }
        validate_sort_order(as_slice_opt(&self.sort_by), as_slice_opt(&self.order_by))?;
        check_timezone(&self.filter_timezone)?;
        let empty = self.filter.is_none() && self.sort_by.is_none() && self.order_by.is_none()
            && self.filter_timezone.is_none() && self.filter_include_nulls.is_none();
        let query = SavedFilterQuery {
            filter: self.filter,
            sort_by: self.sort_by,
            order_by: self.order_by,
            filter_timezone: self.filter_timezone,
            filter_include_nulls: self.filter_include_nulls,
        };
        Ok(
            (
                id,
                SavedFilterUpdate {
                    title: self.title,
                    description: self.description,
                    filters: if empty {
                        None
                    } else {
                        Some(query)
                    },
                    is_favorite: self.is_favorite,
                },
            ),
        )
    }
}

/// The `target` argument of `vikunja_dates_resolve`, when given, names one
/// of the three task dates.
pub fn validate_date_target(target: Option<&str>) -> (r: Result<(), Error>)
    ensures
        match target {
            Some(t) => if t@ == "due_date"@ || t@ == "start_date"@ || t@ == "end_date"@ {
                r is Ok
            } else {
                rejects(r, "target must be one of due_date, start_date or end_date"@)
            },
            None => r is Ok,
        },
{
    if let Some(t) = target {
        if !(str_eq(t, "due_date") || str_eq(t, "start_date") || str_eq(t, "end_date")) {
            return Err(invalid(owned("target must be one of due_date, start_date or end_date")));
        }
    }
    Ok(())
}

// ----- Attachments -----------------------------------------------------------

/// The message for an upload over the size limit.
pub open spec fn oversized_message(size: nat) -> Seq<char> {
    "attachment is about "@ + decimal(size) + " bytes; the maximum supported upload is 20971520 bytes"@
}

fn oversized(size: u64) -> (e: Error)
    ensures
        is_invalid_argument(e, oversized_message(size as nat)),
{
    let mut m = owned("attachment is about ");
    push_decimal(&mut m, size);
    push_str(&mut m, " bytes; the maximum supported upload is 20971520 bytes");
    invalid(m)
}

/// Where the bytes of an upload come from.
#[derive(Debug)]
pub enum UploadSource {
    /// Base64 content given inline, already trimmed, with its file name.
    Inline { file_name: String, content: String },
    /// A local file read by the server; `name` overrides its basename.
    Local { path: String, name: Option<String> },
}

/// The length in bytes of the UTF-8 encoding of `text`, as `str::len`
/// reports it.
pub open spec fn str_byte_len(text: Seq<char>) -> usize {
    encode_utf8(text).len() as usize
}

/// Upper estimate of the decoded size of base64 text: three bytes per four
/// encoded bytes.
pub open spec fn base64_size_estimate(text: Seq<char>) -> nat {
    (str_byte_len(text) / 4 * 3) as nat
}

/// The first problem with the source arguments of an upload.
pub open spec fn upload_problem(a: AttachmentsUploadArgs) -> Option<Seq<char>> {
    if a.task_id <= 0 {
        Some(msg_not_positive("task_id"@))
    } else {
        match (a.content_base64, a.file_path) {
            (Some(_), Some(_)) => Some("provide either content_base64 or file_path, not both"@),
            (None, None) => Some("provide content_base64 or file_path"@),
            (Some(c), None) => if a.file_name is None {
                Some("file_name is required with content_base64"@)
            } else if base64_size_estimate(trim(c@)) > MAX_UPLOAD_BYTES {
                Some(oversized_message(base64_size_estimate(trim(c@))))
            } else {
                None
            },
            (None, Some(_)) => None,
        }
    }
}

impl AttachmentsUploadArgs {
    /// The task id and the source of the upload: exactly one of
    /// `content_base64` (with `file_name`) and `file_path`. Inline content is
    /// trimmed and rejected before decoding when its decoded size would
    /// exceed the upload limit.
    pub fn into_source(self) -> (r: Result<(i64, UploadSource), Error>)
        ensures
            match upload_problem(self) {
                Some(m) => rejects(r, m),
                None => match r {
                    Ok((id, src)) => id == self.task_id && match src {
                        UploadSource::Inline { file_name, content } => {
                            &&& self.file_path is None
                            &&& self.content_base64 matches Some(c) && content@ == trim(c@)
                            &&& self.file_name == Some(file_name)
                        },
                        UploadSource::Local { path, name } => self.content_base64 is None
                            && self.file_path == Some(path) && name == self.file_name,
                    },
                    Err(_) => false,
                },
            },
    {
        let task_id = positive("task_id", self.task_id)?;
        match (self.content_base64, self.file_path) {
            (Some(_), Some(_)) => Err(invalid(owned("provide either content_base64 or file_path, not both"))),
            (None, None) => Err(invalid(owned("provide content_base64 or file_path"))),
            (Some(content), None) => {
                let file_name = match self.file_name {
                    Some(n) => n,
                    None => {
                        return Err(invalid(owned("file_name is required with content_base64")));
                    },
                };
                let trimmed = string_of(&trim_str(content.as_str()));
                let bytes = trimmed.as_str().len();
                let estimated = bytes / 4 * 3;
                if estimated > MAX_UPLOAD_BYTES {
                    return Err(oversized(estimated as u64));
                }
                Ok((task_id, UploadSource::Inline { file_name, content: trimmed }))
            },
            (None, Some(path)) => Ok((task_id, UploadSource::Local { path, name: self.file_name })),
        }
    }
}

/// The standard base64 decoding of `text` (RFC 4648 alphabet, with
/// padding), or the text of the decoder's error.
pub uninterp spec fn base64_decoding(text: Seq<char>) -> Result<Seq<u8>, Seq<char>>;

/// Decodes with `base64::engine::general_purpose::STANDARD`. The result is
/// named, not stated: it is whatever that engine's `decode` returns for the
/// text, the error taken by its `Display` text.
#[verifier::external_body]
fn base64_decode(text: &str) -> (r: Result<Vec<u8>, String>)
    ensures
        match r {
            Ok(b) => base64_decoding(text@) == Ok::<Seq<u8>, Seq<char>>(b@),
            Err(m) => base64_decoding(text@) == Err::<Seq<u8>, Seq<char>>(m@),
        },
{
    match base64::Engine::decode(&base64::engine::general_purpose::STANDARD, text) {
        Ok(bytes) => Ok(bytes),
        Err(e) => Err(e.to_string()),
    }
}

/// The standard base64 encoding of `bytes` (RFC 4648 alphabet, with
/// padding).
pub uninterp spec fn base64_encoding(bytes: Seq<u8>) -> Seq<char>;

/// Encodes with `base64::engine::general_purpose::STANDARD`; the engine
/// panics only when the encoded length overflows `usize`, which the bound
/// on the input rules out. The result is named, not stated.
#[verifier::external_body]
fn base64_encode(bytes: &[u8]) -> (r: String)
    requires
        bytes@.len() <= usize::MAX / 2,
    ensures
        r@ == base64_encoding(bytes@),
{
    base64::Engine::encode(&base64::engine::general_purpose::STANDARD, bytes)
}

/// Decodes inline upload content.
pub fn decode_upload(content: &str) -> (r: Result<Vec<u8>, Error>)
    ensures
        match base64_decoding(content@) {
            Ok(b) => r matches Ok(v) && v@ == b,
            Err(m) => rejects(r, "content_base64 is not valid base64: "@ + m),
        },
{
    match base64_decode(content) {
        Ok(bytes) => Ok(bytes),
        Err(e) => {
            let mut m = owned("content_base64 is not valid base64: ");
            push_str(&mut m, e.as_str());
            Err(invalid(m))
        },
    }
}

/// Rejects a local file whose reported size exceeds the upload limit,
/// before it is read.
pub fn check_local_file_size(len: u64) -> (r: Result<(), Error>)
    ensures
        len <= MAX_UPLOAD_BYTES ==> r is Ok,
        len > MAX_UPLOAD_BYTES ==> rejects(r, oversized_message(len as nat)),
{
    if len > MAX_UPLOAD_BYTES as u64 {
        return Err(oversized(len));
    }
    Ok(())
}

/// The file name of a local upload: the explicit one, else the basename of
/// the file, else `attachment`.
pub fn upload_file_name(explicit: Option<String>, base_name: Option<String>) -> (r: String)
    ensures
        r@ == match explicit {
            Some(n) => n@,
            None => match base_name {
                Some(b) => b@,
                None => "attachment"@,
            },
        },
{
    match explicit {
        Some(name) => name,
        None => match base_name {
            Some(b) => b,
            None => owned("attachment"),
        },
    }
}

/// Final checks before uploading: a file name that is not blank and at
/// most the upload limit of actual bytes.
pub fn check_upload(file_name: &str, len: usize) -> (r: Result<(), Error>)
    ensures
        blank(file_name@) ==> rejects(r, msg_empty("file_name"@)),
        !blank(file_name@) && len > MAX_UPLOAD_BYTES ==> rejects(r, oversized_message(len as nat)),
        !blank(file_name@) && len <= MAX_UPLOAD_BYTES ==> r is Ok,
{
    non_empty("file_name", file_name)?;
    if len > MAX_UPLOAD_BYTES {
        return Err(oversized_upload(len));
    }
    Ok(())
}

/// Whether an attachment's file carries the name `name`.
pub open spec fn attachment_named(a: TaskAttachment, name: Seq<char>) -> bool {
    a.file matches Some(f) && f.name@ == name
}

/// The attachment just uploaded under `name`: among the attachments with
/// that file name, the one with the largest id (the last of them on a tie).
pub fn newest_attachment_named(items: Vec<TaskAttachment>, name: &str) -> (r: Option<TaskAttachment>)
    ensures
        match r {
            None => forall|j: int| 0 <= j < items@.len() ==> !attachment_named(#[trigger] items@[j], name@),
            Some(a) => exists|k: int|
                0 <= k < items@.len() && items@[k] == a && attachment_named(a, name@) && (forall|j: int|
                    0 <= j < items@.len() && attachment_named(#[trigger] items@[j], name@) ==> items@[j].id
                        <= a.id) && (forall|j: int|
                    k < j < items@.len() && attachment_named(#[trigger] items@[j], name@) ==> items@[j].id
                        < a.id),
        },
{
    let mut best: Option<usize> = None;
    let mut i: usize = 0;
    while i < items.len()
        invariant
            i <= items@.len(),
            match best {
                None => forall|j: int| 0 <= j < i ==> !attachment_named(#[trigger] items@[j], name@),
                Some(k) => k < i && attachment_named(items@[k as int], name@) && (forall|j: int|
                    0 <= j < i && attachment_named(#[trigger] items@[j], name@) ==> items@[j].id
                        <= items@[k as int].id) && (forall|j: int|
                    k < j < i && attachment_named(#[trigger] items@[j], name@) ==> items@[j].id
                        < items@[k as int].id),
            },
        decreases items@.len() - i,
    {
        let matches = match &items[i].file {
            Some(f) => str_eq(f.name.as_str(), name),
            None => false,
        };
        if matches {
            match best {
                None => {
                    best = Some(i);
                },
                Some(k) => {
                    if items[i].id >= items[k].id {
                        best = Some(i);
                    }
                },
            }
        }
        i = i + 1;
    }
    match best {
        None => None,
        Some(k) => {
            let mut items = items;
            let a = items.swap_remove(k);
            Some(a)
        },
    }
}

/// The message when an attachment is too large to return inline.
pub open spec fn inline_limit_message(size: Option<u64>) -> Seq<char> {
    let head = match size {
        Some(s) => "attachment is "@ + decimal(s as nat) + " bytes, "@,
        None => "attachment is "@,
    };
    head + "larger than the 2097152 byte inline limit; pass save_path to write it to disk instead"@
}

/// Turns a size-limit error of an inline download into advice to save the
/// file instead; other errors pass through.
pub fn inline_download_error(err: Error) -> (r: Error)
    ensures
        match err {
            Error::TooLarge { size, .. } => is_invalid_argument(r, inline_limit_message(size)),
            _ => r == err,
        },
{
    match err {
        Error::TooLarge { size, .. } => {
            let mut m = owned("attachment is ");
            if let Some(s) = size {
                push_decimal(&mut m, s);
                push_str(&mut m, " bytes, ");
            }
            push_str(
                &mut m,
                "larger than the 2097152 byte inline limit; pass save_path to write it to disk instead",
            );
            invalid(m)
        },
        other => other,
    }
}

/// The result of an inline download: the content, base64-encoded, and its
/// size.
pub fn inline_download_result(task_id: i64, attachment_id: i64, content: AttachmentContent) -> (r:
    DownloadResult)
    requires
        content.bytes@.len() <= usize::MAX / 2,
    ensures
        r.task_id == task_id,
        r.attachment_id == attachment_id,
        r.mime == content.content_type,
        r.size_bytes == content.bytes@.len(),
        r.saved_to is None,
        r.content_base64 matches Some(b) && b@ == base64_encoding(content.bytes@),
{
    let size_bytes = content.bytes.len() as u64;
    let encoded = base64_encode(content.bytes.as_slice());
    DownloadResult {
        task_id,
        attachment_id,
        mime: content.content_type,
        size_bytes,
        saved_to: None,
        content_base64: Some(encoded),
    }
}

// ----- Dates and reminders ---------------------------------------------------

/// A task date argument after resolution: text to send as is (an explicit
/// RFC 3339 value, the clear replacement, or nothing), or a local day and
/// time still to be turned into a timestamp in the server timezone.
#[derive(Debug, Clone, PartialEq, Eq)]
pub enum DateValue {
    Text(Option<String>),
    At { day: i32, time_of_day: TimeOfDay },
}

/// What is wrong with a date argument and its `*_shortcut` counterpart,
/// if anything: they cannot both be given, and the shortcut must resolve.
pub open spec fn date_problem(
    field: Seq<char>,
    explicit: Option<String>,
    shortcut: Option<String>,
    reference: ReferenceDay,
    config: DateConfig,
) -> Option<Seq<char>> {
    match (explicit, shortcut) {
        (Some(_), Some(_)) => Some("provide either "@ + field + " or "@ + field + "_shortcut, not both"@),
        (None, Some(x)) => match resolution(x@, reference, config) {
            Err(m) => Some(m),
            Ok(_) => None,
        },
        _ => None,
    }
}

/// The value an accepted date argument stands for: the explicit text, the
/// clear replacement for a clear shortcut, or the resolved day and time.
pub open spec fn date_value_is(
    v: DateValue,
    explicit: Option<String>,
    shortcut: Option<String>,
    clear_replacement: Option<&str>,
    reference: ReferenceDay,
    config: DateConfig,
) -> bool {
    match shortcut {
        None => v == DateValue::Text(explicit),
        Some(x) => match resolution(x@, reference, config) {
            Ok(Resolution::Clear) => match (v, clear_replacement) {
                (DateValue::Text(Some(t)), Some(c)) => t@ == c@,
                (DateValue::Text(None), None) => true,
                _ => false,
            },
            Ok(Resolution::Timestamp { day, time_of_day }) => v == DateValue::At { day, time_of_day },
            Err(_) => false,
        },
    }
}

/// Resolves an optional `*_shortcut` argument against its RFC 3339
/// counterpart; giving both is rejected. `clear_replacement` is what a
/// clear shortcut produces: the zero date for updates, nothing for create.
pub fn resolved_date(
    field: &str,
    explicit: Option<String>,
    shortcut: Option<String>,
    clear_replacement: Option<&str>,
    reference: &ReferenceDay,
    config: &DateConfig,
) -> (r: Result<DateValue, Error>)
    ensures
        match date_problem(field@, explicit, shortcut, *reference, *config) {
            Some(m) => rejects(r, m),
            None => r matches Ok(v) && date_value_is(
                v,
                explicit,
                shortcut,
                clear_replacement,
                *reference,
                *config,
            ),
        },
{
    match (explicit, shortcut) {
        (Some(_), Some(_)) => {
            let mut m = owned("provide either ");
            push_str(&mut m, field);
            push_str(&mut m, " or ");
            push_str(&mut m, field);
            push_str(&mut m, "_shortcut, not both");
            Err(invalid(m))
        },
        (e, None) => Ok(DateValue::Text(e)),
        (None, Some(expression)) => {
            match resolve(expression.as_str(), reference, config)? {
                Resolution::Clear => Ok(
                    DateValue::Text(
                        match clear_replacement {
                            Some(c) => Some(owned(c)),
                            None => None,
                        },
                    ),
                ),
                Resolution::Timestamp { day, time_of_day } => Ok(DateValue::At { day, time_of_day }),
            }
        },
    }
}

/// Whether chrono's `DateTime::parse_from_rfc3339` accepts the text.
pub uninterp spec fn rfc3339_accepts(text: Seq<char>) -> bool;

/// `chrono::DateTime::parse_from_rfc3339(text).is_ok()`. The result is
/// named, not stated.
#[verifier::external_body]
fn is_rfc3339(text: &str) -> (r: bool)
    ensures
        r == rfc3339_accepts(text@),
{
    chrono::DateTime::parse_from_rfc3339(text).is_ok()
}

/// A reminder after validation: ready to send, or an absolute reminder at
/// a local day and time still to be turned into a timestamp in the server
/// timezone.
#[derive(Debug, Clone, PartialEq)]
pub enum ReminderValue {
    Ready(TaskReminder),
    At { day: i32, time_of_day: TimeOfDay },
}

pub open spec fn msg_both_kinds() -> Seq<char> {
    "provide either an absolute reminder (reminder or reminder_shortcut) or a relative one (relative_to with relative_period_seconds), not both"@
}

/// What is wrong with one reminder argument, if anything: exactly one of
/// "absolute" (`reminder` / `reminder_shortcut`) or "relative"
/// (`relative_to` + `relative_period_seconds`) must be given.
pub open spec fn reminder_problem(input: ReminderInput, reference: ReferenceDay, config: DateConfig) -> Option<
    Seq<char>,
> {
    let has_absolute = input.reminder is Some || input.reminder_shortcut is Some;
    let has_relative = input.relative_to is Some || input.relative_period_seconds is Some;
    if has_absolute && has_relative {
        Some(msg_both_kinds())
    } else {
        match (input.reminder, input.reminder_shortcut, input.relative_to, input.relative_period_seconds) {
            (Some(_), Some(_), _, _) => Some("provide either reminder or reminder_shortcut, not both"@),
            (Some(ts), None, _, _) => if rfc3339_accepts(ts@) {
                None
            } else {
                Some(
                    "reminder must be a valid RFC 3339 timestamp like 2026-07-01T09:00:00Z, got "@
                        + debug_quoted(ts@),
                )
            },
            (None, Some(x), _, _) => match resolution(x@, reference, config) {
                Err(m) => Some(m),
                Ok(Resolution::Clear) => Some(
                    "a clear shortcut cannot be used as a reminder time; to remove reminders call vikunja_task_reminders_set with an empty list"@,
                ),
                Ok(Resolution::Timestamp { .. }) => None,
            },
            (None, None, Some(_), Some(_)) => None,
            (None, None, Some(_), None) => Some("relative_period_seconds is required with relative_to"@),
            (None, None, None, Some(_)) => Some("relative_to is required with relative_period_seconds"@),
            (None, None, None, None) => Some(
                "provide a reminder: reminder, reminder_shortcut, or relative_to with relative_period_seconds"@,
            ),
        }
    }
}

/// The reminder an accepted argument stands for.
pub open spec fn reminder_is(v: ReminderValue, input: ReminderInput, reference: ReferenceDay, config: DateConfig) -> bool {
    match (input.reminder, input.reminder_shortcut, input.relative_to) {
        (Some(ts), _, _) => v == ReminderValue::Ready(
            TaskReminder { reminder: Some(ts), relative_period: None, relative_to: None },
        ),
        (None, Some(x), _) => match resolution(x@, reference, config) {
            Ok(Resolution::Timestamp { day, time_of_day }) => v == ReminderValue::At { day, time_of_day },
            _ => false,
        },
        (None, None, Some(anchor)) => match v {
            ReminderValue::Ready(t) => {
                &&& t.reminder is None
                &&& t.relative_period == input.relative_period_seconds
                &&& (t.relative_to matches Some(a) && a@ == relative_to_name(anchor))
            },
            _ => false,
        },
        _ => false,
    }
}

/// Validates one reminder argument and turns it into the wire shape.
pub fn build_reminder(input: ReminderInput, reference: &ReferenceDay, config: &DateConfig) -> (r: Result<
    ReminderValue,
    Error,
>)
    ensures
        match reminder_problem(input, *reference, *config) {
            Some(m) => rejects(r, m),
            None => r matches Ok(v) && reminder_is(v, input, *reference, *config),
        },
{
    let has_absolute = input.reminder.is_some() || input.reminder_shortcut.is_some();
    let has_relative = input.relative_to.is_some() || input.relative_period_seconds.is_some();
    if has_absolute && has_relative {
        return Err(
            invalid(
                owned(
                    "provide either an absolute reminder (reminder or reminder_shortcut) or a relative one (relative_to with relative_period_seconds), not both",
                ),
            ),
        );
    }
    match (input.reminder, input.reminder_shortcut, input.relative_to, input.relative_period_seconds) {
        (Some(_), Some(_), _, _) => Err(
            invalid(owned("provide either reminder or reminder_shortcut, not both")),
        ),
        (Some(timestamp), None, _, _) => {
            if !is_rfc3339(timestamp.as_str()) {
                let mut m = owned(
                    "reminder must be a valid RFC 3339 timestamp like 2026-07-01T09:00:00Z, got ",
                );
                let q = debug_quote(timestamp.as_str());
                push_str(&mut m, q.as_str());
                return Err(invalid(m));
            }
            Ok(ReminderValue::Ready(TaskReminder { reminder: Some(timestamp), relative_period: None, relative_to: None }))
        },
        (None, Some(expression), _, _) => {
            match resolve(expression.as_str(), reference, config)? {
                Resolution::Clear => Err(
                    invalid(
                        owned(
                            "a clear shortcut cannot be used as a reminder time; to remove reminders call vikunja_task_reminders_set with an empty list",
                        ),
                    ),
                ),
                Resolution::Timestamp { day, time_of_day } => Ok(ReminderValue::At { day, time_of_day }),
            }
        },
        (None, None, Some(anchor), Some(period)) => Ok(
            ReminderValue::Ready(
                TaskReminder {
                    reminder: None,
                    relative_period: Some(period),
                    relative_to: Some(owned(anchor.as_str())),
                },
            ),
        ),
        (None, None, Some(_), None) => Err(
            invalid(owned("relative_period_seconds is required with relative_to")),
        ),
        (None, None, None, Some(_)) => Err(
            invalid(owned("relative_to is required with relative_period_seconds")),
        ),
        (None, None, None, None) => Err(
            invalid(
                owned(
                    "provide a reminder: reminder, reminder_shortcut, or relative_to with relative_period_seconds",
                ),
            ),
        ),
    }
}

} // verus!
