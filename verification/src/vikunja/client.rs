//! Request-building logic of the Vikunja client: task-listing options and
//! the options that evaluate a saved filter.

use vstd::prelude::*;

use crate::config::{trim_end_matches, trim_end_matches_exec};
use crate::error::{Error, is_invalid_argument};
use crate::text::{chars_of, int_decimal, owned, push_int, push_str, str_eq, string_of};
use crate::vikunja::models::{SavedFilter, SavedFilterQuery, SavedFilterUpdate};
use crate::vikunja::pagination::PageParams;

verus! {

/// Options for listing tasks via `GET /tasks`.
#[derive(Debug, Clone, Default, PartialEq)]
pub struct TaskListOptions {
    pub page: Option<u32>,
    pub per_page: Option<u32>,
    /// Full-text search on the task title.
    pub search: Option<String>,
    /// Vikunja filter expression.
    pub filter: Option<String>,
    /// Restrict results to one project (combined into the filter).
    pub project_id: Option<i64>,
    pub sort_by: Option<String>,
    pub order_by: Option<String>,
    pub filter_timezone: Option<String>,
    pub filter_include_nulls: Option<bool>,
}

/// The filter sent to Vikunja: the explicit expression, the project
/// restriction, or both joined with `&&`.
pub open spec fn combined_filter_of(filter: Option<Seq<char>>, project_id: Option<i64>) -> Option<
    Seq<char>,
> {
    match (filter, project_id) {
        (Some(f), Some(p)) => Some("("@ + f + ") && project_id = "@ + int_decimal(p as int)),
        (Some(f), None) => Some(f),
        (None, Some(p)) => Some("project_id = "@ + int_decimal(p as int)),
        (None, None) => None,
    }
}

pub open spec fn opt_string_view(o: Option<String>) -> Option<Seq<char>> {
    match o {
        Some(s) => Some(s@),
        None => None,
    }
}

impl TaskListOptions {
    /// Combines the explicit filter expression with the project restriction.
    pub fn combined_filter(&self) -> (r: Option<String>)
        ensures
            opt_string_view(r) == combined_filter_of(opt_string_view(self.filter), self.project_id),
    {
        match (&self.filter, self.project_id) {
            (Some(filter), Some(project_id)) => {
                let mut s = owned("(");
                push_str(&mut s, filter.as_str());
                push_str(&mut s, ") && project_id = ");
                push_int(&mut s, project_id);
                Some(s)
            },
            (Some(filter), None) => Some(owned(filter.as_str())),
            (None, Some(project_id)) => {
                let mut s = owned("project_id = ");
                push_int(&mut s, project_id);
                Some(s)
            },
            (None, None) => None,
        }
    }
}

fn copy_opt(o: &Option<String>) -> (r: Option<String>)
    ensures
        opt_string_view(r) == opt_string_view(*o),
{
    match o {
        Some(s) => Some(owned(s.as_str())),
        None => None,
    }
}

fn first_of(o: &Option<Vec<String>>) -> (r: Option<String>)
    ensures
        opt_string_view(r) == match *o {
            Some(v) => if v.len() > 0 {
                Some(v[0]@)
            } else {
                None
            },
            None => None,
        },
{
    match o {
        Some(v) => if v.len() > 0 {
            Some(owned(v[0].as_str()))
        } else {
            None
        },
        None => None,
    }
}

/// Task-listing options that evaluate a saved filter's stored query: the
/// filter expression, timezone and null handling carry over, the first
/// `sort_by`/`order_by` pair is applied, and nothing else is set.
pub fn saved_filter_options(filter: &SavedFilter) -> (o: TaskListOptions)
    ensures
        o.page is None && o.per_page is None && o.search is None && o.project_id is None,
        match filter.filters {
            Some(q) => {
                &&& opt_string_view(o.filter) == opt_string_view(q.filter)
                &&& opt_string_view(o.sort_by) == match q.sort_by {
                    Some(v) => if v.len() > 0 {
                        Some(v[0]@)
                    } else {
                        None
                    },
                    None => None,
                }
                &&& opt_string_view(o.order_by) == match q.order_by {
                    Some(v) => if v.len() > 0 {
                        Some(v[0]@)
                    } else {
                        None
                    },
                    None => None,
                }
                &&& opt_string_view(o.filter_timezone) == opt_string_view(q.filter_timezone)
                &&& o.filter_include_nulls == q.filter_include_nulls
            },
            None => o.filter is None && o.sort_by is None && o.order_by is None
                && o.filter_timezone is None && o.filter_include_nulls is None,
        },
{
    match &filter.filters {
        Some(q) => TaskListOptions {
            page: None,
            per_page: None,
            search: None,
            filter: copy_opt(&q.filter),
            project_id: None,
            sort_by: first_of(&q.sort_by),
            order_by: first_of(&q.order_by),
            filter_timezone: copy_opt(&q.filter_timezone),
            filter_include_nulls: q.filter_include_nulls,
        },
        None => TaskListOptions {
            page: None,
            per_page: None,
            search: None,
            filter: None,
            project_id: None,
            sort_by: None,
            order_by: None,
            filter_timezone: None,
            filter_include_nulls: None,
        },
    }
}

/// A downloaded attachment body.
#[derive(Debug, Clone)]
pub struct AttachmentContent {
    pub bytes: Vec<u8>,
    pub content_type: Option<String>,
}

/// The `/api/v1` path of an endpoint below an instance's base path:
/// trailing slashes of the base are dropped, then `/api/v1` and the
/// endpoint path are appended.
pub fn api_path(base_path: &str, path: &str) -> (r: String)
    ensures
        r@ == trim_end_matches(base_path@, "/"@) + "/api/v1"@ + path@,
{
    let trimmed = trim_end_matches_exec(&chars_of(base_path), "/");
    let mut r = string_of(&trimmed);
    push_str(&mut r, "/api/v1");
    push_str(&mut r, path);
    r
}

/// The page parameters a list request sends: the configured default page
/// size fills in a missing `per_page`.
pub fn with_default_page_size(params: PageParams, default_page_size: u32) -> (p: PageParams)
    ensures
        p.page == params.page,
        p.per_page == match params.per_page {
            Some(n) => Some(n),
            None => Some(default_page_size),
        },
{
    PageParams {
        page: params.page,
        per_page: match params.per_page {
            Some(n) => Some(n),
            None => Some(default_page_size),
        },
    }
}

// ----- Sending with one retry ------------------------------------------------

/// What one attempt at sending a request produced.
#[derive(Debug)]
pub enum Attempt {
    /// The server answered with this HTTP status.
    Responded { status: u16 },
    /// No response arrived.
    Failed(Error),
}

/// What to do after an attempt.
#[derive(Debug)]
pub enum ExecStep {
    /// Record a retry, wait briefly and send the request once more.
    Retry,
    /// The response is a success: record `ok` and hand it to the caller.
    Succeed,
    /// The response is an error status: read its body and turn it into an
    /// API error.
    ReadErrorBody { status: u16 },
    /// Give up with this error (its category is the recorded outcome).
    Fail(Error),
}

pub open spec fn is_success(status: u16) -> bool {
    200 <= status <= 299
}

/// Whether a failure is worth one more try: timeouts and connection-level
/// errors are; everything else is not.
pub open spec fn retriable(e: Error) -> bool {
    e is Timeout || e is Network
}

/// The decision after an attempt. Only the first attempt of a request
/// that can be repeated safely (idempotent, and whose builder could be
/// cloned) is retried, and only after a timeout or network error.
pub open spec fn next_step(first_attempt: bool, can_retry: bool, attempt: Attempt) -> ExecStep {
    match attempt {
        Attempt::Responded { status } => if is_success(status) {
            ExecStep::Succeed
        } else {
            ExecStep::ReadErrorBody { status }
        },
        Attempt::Failed(e) => if first_attempt && can_retry && retriable(e) {
            ExecStep::Retry
        } else {
            ExecStep::Fail(e)
        },
    }
}

/// Decides what follows an attempt at sending a request.
pub fn after_attempt(first_attempt: bool, can_retry: bool, attempt: Attempt) -> (step: ExecStep)
    ensures
        step == next_step(first_attempt, can_retry, attempt),
{
    match attempt {
        Attempt::Responded { status } => if 200 <= status && status <= 299 {
            ExecStep::Succeed
        } else {
            ExecStep::ReadErrorBody { status }
        },
        Attempt::Failed(e) => {
            let retry = match &e {
                Error::Timeout { .. } => true,
                Error::Network { .. } => true,
                _ => false,
            };
            if first_attempt && can_retry && retry {
                ExecStep::Retry
            } else {
                ExecStep::Fail(e)
            }
        },
    }
}

/// A request is sent at most twice: a retry is never retried, and a
/// request that cannot be repeated safely is never retried at all.
pub proof fn lemma_at_most_one_retry(can_retry: bool, attempt: Attempt)
    ensures
        next_step(false, can_retry, attempt) != ExecStep::Retry,
        next_step(true, false, attempt) != ExecStep::Retry,
{
}

// ----- Bounded downloads -----------------------------------------------------

/// The error for a download over its byte limit.
pub open spec fn too_large(size: Option<u64>, limit: u64) -> Error {
    Error::TooLarge { endpoint: "attachments.download", size, limit }
}

/// Rejects a download whose announced `Content-Length` exceeds the limit,
/// before anything is buffered.
pub fn check_content_length(length: Option<u64>, max_bytes: u64) -> (r: Result<(), Error>)
    ensures
        match length {
            Some(n) => if n > max_bytes {
                r == Err::<(), Error>(too_large(Some(n), max_bytes))
            } else {
                r is Ok
            },
            None => r is Ok,
        },
{
    if let Some(n) = length {
        if n > max_bytes {
            return Err(Error::TooLarge { endpoint: "attachments.download", size: Some(n), limit: max_bytes });
        }
    }
    Ok(())
}

/// A download body collected in memory under a hard byte limit.
pub struct DownloadBuffer {
    bytes: Vec<u8>,
    limit: u64,
}

impl View for DownloadBuffer {
    type V = Seq<u8>;

    closed spec fn view(&self) -> Seq<u8> {
        self.bytes@
    }
}

impl DownloadBuffer {
    pub closed spec fn limit(&self) -> u64 {
        self.limit
    }

    /// Whether the buffer holds no more than its limit.
    pub closed spec fn within_limit(&self) -> bool {
        self.bytes@.len() <= self.limit
    }

    pub fn new(limit: u64) -> (b: Self)
        ensures
            b@ == Seq::<u8>::empty(),
            b.limit() == limit,
            b.within_limit(),
    {
        DownloadBuffer { bytes: Vec::new(), limit }
    }

    /// Appends a chunk unless that would take the body past the limit, in
    /// which case the download fails and nothing is appended.
    pub fn accept_chunk(&mut self, chunk: &[u8]) -> (r: Result<(), Error>)
        requires
            old(self).within_limit(),
        ensures
            final(self).within_limit(),
            final(self).limit() == old(self).limit(),
            old(self)@.len() + chunk@.len() <= old(self).limit() ==> (r is Ok && final(self)@ == old(
                self,
            )@ + chunk@),
            old(self)@.len() + chunk@.len() > old(self).limit() ==> (r == Err::<(), Error>(
                too_large(None, old(self).limit()),
            ) && final(self)@ == old(self)@),
    {
        let have = self.bytes.len() as u64;
        let add = chunk.len() as u64;
        if add > self.limit - have {
            return Err(Error::TooLarge { endpoint: "attachments.download", size: None, limit: self.limit });
        }
        let mut i: usize = 0;
        let ghost start = self.bytes@;
        let ghost lim = self.limit;
        while i < chunk.len()
            invariant
                i <= chunk@.len(),
                self.limit == lim,
                self.bytes@ == start + chunk@.take(i as int),
                start.len() + chunk@.len() <= self.limit,
            decreases chunk@.len() - i,
        {
            self.bytes.push(chunk[i]);
            assert(chunk@.take((i + 1) as int) =~= chunk@.take(i as int).push(chunk@[i as int]));
            i = i + 1;
        }
        assert(chunk@.take(chunk@.len() as int) =~= chunk@);
        Ok(())
    }

    /// The collected body and the content type reported with it.
    pub fn finish(self, content_type: Option<String>) -> (c: AttachmentContent)
        ensures
            c.bytes@ == self@,
            c.content_type == content_type,
    {
        AttachmentContent { bytes: self.bytes, content_type }
    }
}

// ----- Saved-filter updates --------------------------------------------------

/// Whether a saved-filter update changes nothing.
pub open spec fn filter_patch_is_empty(p: SavedFilterUpdate) -> bool {
    p.title is None && p.description is None && p.is_favorite is None && p.filters is None
}

/// Rejects an update that would change nothing, before anything is sent.
pub fn check_filter_patch(patch: &SavedFilterUpdate) -> (r: Result<(), Error>)
    ensures
        filter_patch_is_empty(*patch) ==> (r matches Err(e) && is_invalid_argument(
            e,
            "nothing to update: provide at least one field"@,
        )),
        !filter_patch_is_empty(*patch) ==> r is Ok,
{
    if patch.title.is_none() && patch.description.is_none() && patch.is_favorite.is_none()
        && patch.filters.is_none() {
        return Err(Error::InvalidArgument(owned("nothing to update: provide at least one field")));
    }
    Ok(())
}

pub open spec fn keep_or<T>(patch: Option<T>, current: T) -> T {
    match patch {
        Some(v) => v,
        None => current,
    }
}

pub open spec fn keep_or_opt<T>(patch: Option<T>, current: Option<T>) -> Option<T> {
    match patch {
        Some(v) => Some(v),
        None => current,
    }
}

/// The stored query after a query patch: every field the patch sets
/// replaces the stored one; every other field keeps its stored value.
pub open spec fn merged_query(current: SavedFilterQuery, patch: SavedFilterQuery) -> SavedFilterQuery {
    SavedFilterQuery {
        filter: keep_or_opt(patch.filter, current.filter),
        sort_by: keep_or_opt(patch.sort_by, current.sort_by),
        order_by: keep_or_opt(patch.order_by, current.order_by),
        filter_timezone: keep_or_opt(patch.filter_timezone, current.filter_timezone),
        filter_include_nulls: keep_or_opt(patch.filter_include_nulls, current.filter_include_nulls),
    }
}

/// A query patch replaces exactly the fields it sets: each field set in the
/// patch takes the patch's value, and each field it leaves unset keeps the
/// stored value.
pub proof fn lemma_query_patch_replaces_set_fields(current: SavedFilterQuery, patch: SavedFilterQuery)
    ensures
        ({
            let m = merged_query(current, patch);
            &&& patch.filter is Some ==> m.filter == patch.filter
            &&& patch.filter is None ==> m.filter == current.filter
            &&& patch.sort_by is Some ==> m.sort_by == patch.sort_by
            &&& patch.sort_by is None ==> m.sort_by == current.sort_by
            &&& patch.order_by is Some ==> m.order_by == patch.order_by
            &&& patch.order_by is None ==> m.order_by == current.order_by
            &&& patch.filter_timezone is Some ==> m.filter_timezone == patch.filter_timezone
            &&& patch.filter_timezone is None ==> m.filter_timezone == current.filter_timezone
            &&& patch.filter_include_nulls is Some ==> m.filter_include_nulls
                == patch.filter_include_nulls
            &&& patch.filter_include_nulls is None ==> m.filter_include_nulls
                == current.filter_include_nulls
        }),
{
}

/// A saved-filter patch replaces exactly the top-level fields it sets:
/// title, description and favourite flag take the patch's value when set
/// and keep the stored one otherwise.
pub proof fn lemma_filter_patch_replaces_set_fields(current: SavedFilter, patch: SavedFilterUpdate)
    ensures
        patch.title matches Some(v) ==> keep_or(patch.title, current.title) == v,
        patch.title is None ==> keep_or(patch.title, current.title) == current.title,
        patch.description matches Some(v) ==> keep_or(patch.description, current.description) == v,
        patch.description is None ==> keep_or(patch.description, current.description)
            == current.description,
        patch.is_favorite matches Some(v) ==> keep_or(patch.is_favorite, current.is_favorite) == v,
        patch.is_favorite is None ==> keep_or(patch.is_favorite, current.is_favorite)
            == current.is_favorite,
{
}

/// Patching twice is patching once with both patches, the later one
/// winning: a field set by the second patch takes its value, otherwise the
/// first patch's, otherwise the stored one.
pub proof fn lemma_query_patches_compose(
    current: SavedFilterQuery,
    first: SavedFilterQuery,
    second: SavedFilterQuery,
)
    ensures
        merged_query(merged_query(current, first), second) == merged_query(
            current,
            merged_query(first, second),
        ),
{
}

fn merge_query(current: SavedFilterQuery, patch: SavedFilterQuery) -> (q: SavedFilterQuery)
    ensures
        q == merged_query(current, patch),
{
    SavedFilterQuery {
        filter: match patch.filter {
            Some(v) => Some(v),
            None => current.filter,
        },
        sort_by: match patch.sort_by {
            Some(v) => Some(v),
            None => current.sort_by,
        },
        order_by: match patch.order_by {
            Some(v) => Some(v),
            None => current.order_by,
        },
        filter_timezone: match patch.filter_timezone {
            Some(v) => Some(v),
            None => current.filter_timezone,
        },
        filter_include_nulls: match patch.filter_include_nulls {
            Some(v) => Some(v),
            None => current.filter_include_nulls,
        },
    }
}

/// The saved filter after a partial update. The nested query is merged
/// field by field, so changing only the filter expression keeps the
/// stored sort order and timezone; a filter without a stored query starts
/// from an empty one.
pub fn merge_saved_filter(current: SavedFilter, patch: SavedFilterUpdate) -> (f: SavedFilter)
    ensures
        f.id == current.id,
        f.owner == current.owner,
        f.created == current.created,
        f.updated == current.updated,
        f.title == keep_or(patch.title, current.title),
        f.description == keep_or(patch.description, current.description),
        f.is_favorite == keep_or(patch.is_favorite, current.is_favorite),
        f.filters == match patch.filters {
            Some(q) => Some(
                merged_query(
                    match current.filters {
                        Some(c) => c,
                        None => SavedFilterQuery {
                            filter: None,
                            sort_by: None,
                            order_by: None,
                            filter_timezone: None,
                            filter_include_nulls: None,
                        },
                    },
                    q,
                ),
            ),
            None => current.filters,
        },
{
    let filters = match patch.filters {
        Some(q) => {
            let base = match current.filters {
                Some(c) => c,
                None => SavedFilterQuery {
                    filter: None,
                    sort_by: None,
                    order_by: None,
                    filter_timezone: None,
                    filter_include_nulls: None,
                },
            };
            Some(merge_query(base, q))
        },
        None => current.filters,
    };
    SavedFilter {
        id: current.id,
        title: match patch.title {
            Some(t) => t,
            None => current.title,
        },
        description: match patch.description {
            Some(d) => d,
            None => current.description,
        },
        filters,
        is_favorite: match patch.is_favorite {
            Some(b) => b,
            None => current.is_favorite,
        },
        owner: current.owner,
        created: current.created,
        updated: current.updated,
    }
}

// ----- Appending a reminder --------------------------------------------------

/// The shape of a JSON value.
#[derive(Debug, Clone, Copy, PartialEq, Eq, Structural)]
pub enum JsonKind {
    Null,
    Bool,
    Number,
    String,
    Array,
    Object,
}

pub open spec fn json_kind_name(k: JsonKind) -> Seq<char> {
    match k {
        JsonKind::Null => "null"@,
        JsonKind::Bool => "a boolean"@,
        JsonKind::Number => "a number"@,
        JsonKind::String => "a string"@,
        JsonKind::Array => "an array"@,
        JsonKind::Object => "an object"@,
    }
}

/// JSON type name for error messages about unexpected response shapes.
pub fn json_type_name(k: JsonKind) -> (s: &'static str)
    ensures
        s@ == json_kind_name(k),
{
    match k {
        JsonKind::Null => "null",
        JsonKind::Bool => "a boolean",
        JsonKind::Number => "a number",
        JsonKind::String => "a string",
        JsonKind::Array => "an array",
        JsonKind::Object => "an object",
    }
}

/// How a new reminder joins a fetched task's `reminders` field.
#[derive(Debug)]
pub enum ReminderAppend {
    /// Push onto the existing array.
    Push,
    /// The field is absent or `null` (Go's empty-slice encoding): set it to
    /// a one-element array.
    Create,
    /// Any other shape is a malformed response: fail instead of writing the
    /// task back.
    Fail(Error),
}

/// Decides how to append a reminder, given the JSON kind of the fetched
/// task's `reminders` field (`None` when absent).
pub fn reminder_append(field: Option<JsonKind>) -> (r: ReminderAppend)
    ensures
        match field {
            Some(JsonKind::Array) => r == ReminderAppend::Push,
            None | Some(JsonKind::Null) => r == ReminderAppend::Create,
            Some(k) => r matches ReminderAppend::Fail(Error::InvalidResponse { endpoint, detail })
                && endpoint@ == "tasks.get"@ && detail@
                == "expected reminders to be an array or null, got "@ + json_kind_name(k),
        },
{
    match field {
        Some(JsonKind::Array) => ReminderAppend::Push,
        None | Some(JsonKind::Null) => ReminderAppend::Create,
        Some(k) => {
            let mut d = owned("expected reminders to be an array or null, got ");
            push_str(&mut d, json_type_name(k));
            ReminderAppend::Fail(Error::InvalidResponse { endpoint: "tasks.get", detail: d })
        },
    }
}


// ----- Read-merge-write updates ------------------------------------------------

/// A JSON object as its members, in order: each key with the JSON text of
/// its value. Where a key repeats, the later member wins, as when the
/// members are inserted into an object one after another.
pub open spec fn members_map(s: Seq<(String, String)>) -> Map<Seq<char>, Seq<char>>
    decreases s.len(),
{
    if s.len() == 0 {
        Map::empty()
    } else {
        members_map(s.drop_last()).insert(s.last().0@, s.last().1@)
    }
}

/// Members listed after others override them.
pub proof fn lemma_members_map_append(a: Seq<(String, String)>, b: Seq<(String, String)>)
    ensures
        members_map(a + b) == members_map(a).union_prefer_right(members_map(b)),
    decreases b.len(),
{
    if b.len() == 0 {
        assert(a + b =~= a);
        assert(members_map(a).union_prefer_right(members_map(b)) =~= members_map(a));
    } else {
        assert((a + b).drop_last() =~= a + b.drop_last());
        assert((a + b).last() == b.last());
        lemma_members_map_append(a, b.drop_last());
        assert(members_map(a + b) =~= members_map(a).union_prefer_right(members_map(b)));
    }
}

/// Checks an update payload before the entity is read: it must be a JSON
/// object (`members` is its member count, `None` for any other JSON value)
/// with at least one field.
pub fn check_update_patch(members: Option<usize>) -> (r: Result<(), Error>)
    ensures
        members is None ==> is_invalid_argument_err(r, "update payload must be a JSON object"@),
        members == Some(0usize) ==> is_invalid_argument_err(
            r,
            "nothing to update: provide at least one field"@,
        ),
        members matches Some(n) && n > 0 ==> r is Ok,
{
    match members {
        None => Err(Error::InvalidArgument(owned("update payload must be a JSON object"))),
        Some(0) => Err(Error::InvalidArgument(owned("nothing to update: provide at least one field"))),
        Some(_) => Ok(()),
    }
}

/// `r` is an `InvalidArgument` error with this message.
pub open spec fn is_invalid_argument_err(r: Result<(), Error>, message: Seq<char>) -> bool {
    r matches Err(e) && is_invalid_argument(e, message)
}

fn has_key(members: &Vec<(String, String)>, key: &str) -> (r: bool)
    ensures
        r == members_map(members@).dom().contains(key@),
{
    let mut found = false;
    let mut j: usize = 0;
    while j < members.len()
        invariant
            j <= members@.len(),
            found == members_map(members@.take(j as int)).dom().contains(key@),
        decreases members@.len() - j,
    {
        assert(members@.take(j + 1).drop_last() =~= members@.take(j as int));
        assert(members@.take(j + 1).last() == members@[j as int]);
        if str_eq(members[j].0.as_str(), key) {
            found = true;
        }
        j = j + 1;
    }
    assert(members@.take(j as int) =~= members@);
    found
}

/// Overlays an update on the current entity, both as JSON object members:
/// every field in the patch takes the patch's value, every other field
/// keeps its current value, and no other field appears. `current` is
/// `None` when the entity read back is not a JSON object.
pub fn overlay_fields(
    current: Option<Vec<(String, String)>>,
    patch: &Vec<(String, String)>,
    get_endpoint: &'static str,
) -> (r: Result<Vec<(String, String)>, Error>)
    ensures
        current is None ==> (r matches Err(Error::InvalidResponse { endpoint, detail })
            && endpoint == get_endpoint && detail@ == "expected a JSON object"@),
        current matches Some(c) ==> (r matches Ok(m) && members_map(m@) == members_map(
            c@,
        ).union_prefer_right(members_map(patch@))),
{
    let current = match current {
        Some(c) => c,
        None => {
            return Err(
                Error::InvalidResponse { endpoint: get_endpoint, detail: owned("expected a JSON object") },
            );
        },
    };
    let ghost keys = members_map(patch@).dom();
    let mut merged: Vec<(String, String)> = Vec::new();
    let mut i: usize = 0;
    while i < current.len()
        invariant
            i <= current@.len(),
            keys == members_map(patch@).dom(),
            members_map(merged@) == members_map(current@.take(i as int)).remove_keys(keys),
        decreases current@.len() - i,
    {
        let ghost before = merged@;
        assert(current@.take(i + 1).drop_last() =~= current@.take(i as int));
        assert(current@.take(i + 1).last() == current@[i as int]);
        let key = current[i].0.as_str();
        if !has_key(patch, key) {
            let member = (current[i].0.clone(), current[i].1.clone());
            merged.push(member);
            proof {
                assert(merged@.drop_last() =~= before);
                assert(members_map(merged@) =~= members_map(current@.take(i + 1)).remove_keys(
                    keys,
                ));
            }
        } else {
            proof {
                assert(members_map(merged@) =~= members_map(current@.take(i + 1)).remove_keys(
                    keys,
                ));
            }
        }
        i = i + 1;
    }
    assert(current@.take(i as int) =~= current@);
    let ghost kept = merged@;
    let mut j: usize = 0;
    while j < patch.len()
        invariant
            j <= patch@.len(),
            merged@ == kept + patch@.take(j as int),
        decreases patch@.len() - j,
    {
        let member = (patch[j].0.clone(), patch[j].1.clone());
        merged.push(member);
        assert(kept + patch@.take(j + 1) =~= (kept + patch@.take(j as int)).push(patch@[j as int]));
        j = j + 1;
    }
    assert(patch@.take(j as int) =~= patch@);
    proof {
        lemma_members_map_append(kept, patch@);
        assert(members_map(merged@) =~= members_map(current@).union_prefer_right(
            members_map(patch@),
        ));
    }
    Ok(merged)
}

// ----- The body written back when a reminder is appended -----------------------

/// The texts of a sequence of strings.
pub open spec fn texts(v: Seq<String>) -> Seq<Seq<char>> {
    v.map_values(|s: String| s@)
}

/// Texts joined with commas, in order.
pub open spec fn comma_joined(items: Seq<Seq<char>>) -> Seq<char>
    decreases items.len(),
{
    if items.len() == 0 {
        Seq::empty()
    } else if items.len() == 1 {
        items[0]
    } else {
        comma_joined(items.drop_last()) + ","@ + items.last()
    }
}

/// The JSON text of an array whose elements have these JSON texts.
pub open spec fn json_array_text(items: Seq<Seq<char>>) -> Seq<char> {
    "["@ + comma_joined(items) + "]"@
}

/// Writes the JSON array whose elements have the JSON texts in `items`.
pub fn array_text(items: &Vec<String>) -> (t: String)
    ensures
        t@ == json_array_text(texts(items@)),
{
    let mut t = owned("[");
    let mut i: usize = 0;
    while i < items.len()
        invariant
            i <= items@.len(),
            t@ == "["@ + comma_joined(texts(items@.take(i as int))),
        decreases items@.len() - i,
    {
        let ghost before = t@;
        assert(texts(items@.take(i + 1)).drop_last() =~= texts(items@.take(i as int)));
        assert(texts(items@.take(i + 1)).last() == items@[i as int]@);
        if i > 0 {
            push_str(&mut t, ",");
        }
        push_str(&mut t, items[i].as_str());
        proof {
            if i == 0 {
                assert(texts(items@.take(1)).len() == 1);
                assert(comma_joined(texts(items@.take(1))) == items@[0]@);
                assert(t@ =~= "["@ + comma_joined(texts(items@.take(i + 1))));
            } else {
                assert(t@ =~= "["@ + comma_joined(texts(items@.take(i + 1))));
            }
        }
        i = i + 1;
    }
    assert(items@.take(i as int) =~= items@);
    push_str(&mut t, "]");
    t
}

/// Builds the body written back when a reminder is appended to a fetched
/// task. `current` holds the task's members (`None` when the task read back
/// is not a JSON object); `field` is the JSON kind of its `reminders` member
/// (`None` when absent), `existing` the JSON texts of that member's elements
/// when it is an array, and `reminder` the JSON text of the new reminder.
/// The body is the task with `reminders` set to the existing reminders and
/// then the new one; every other member is unchanged.
pub fn append_reminder_members(
    current: Option<Vec<(String, String)>>,
    field: Option<JsonKind>,
    existing: &Vec<String>,
    reminder: &String,
) -> (r: Result<Vec<(String, String)>, Error>)
    ensures
        current is None ==> (r matches Err(Error::InvalidResponse { endpoint, detail })
            && endpoint@ == "tasks.get"@ && detail@ == "expected a JSON object"@),
        current matches Some(c) ==> match field {
            Some(JsonKind::Array) => r matches Ok(m) && members_map(m@) == members_map(
                c@,
            ).insert("reminders"@, json_array_text(texts(existing@).push(reminder@))),
            None | Some(JsonKind::Null) => r matches Ok(m) && members_map(m@) == members_map(
                c@,
            ).insert("reminders"@, json_array_text(seq![reminder@])),
            Some(k) => r matches Err(Error::InvalidResponse { endpoint, detail })
                && endpoint@ == "tasks.get"@ && detail@
                == "expected reminders to be an array or null, got "@ + json_kind_name(k),
        },
{
    let c = match current {
        Some(c) => c,
        None => {
            return Err(
                Error::InvalidResponse { endpoint: "tasks.get", detail: owned("expected a JSON object") },
            );
        },
    };
    let mut items: Vec<String> = Vec::new();
    match reminder_append(field) {
        ReminderAppend::Fail(e) => {
            return Err(e);
        },
        ReminderAppend::Push => {
            items = existing.clone();
        },
        ReminderAppend::Create => {},
    }
    let ghost prior = items@;
    items.push(reminder.clone());
    proof {
        if field == Some(JsonKind::Array) {
            assert(texts(items@) =~= texts(existing@).push(reminder@));
        } else {
            assert(texts(items@) =~= seq![reminder@]);
        }
    }
    let text = array_text(&items);
    let ghost tv = text@;
    let key = owned("reminders");
    let mut patch: Vec<(String, String)> = Vec::new();
    patch.push((key, text));
    let merged = overlay_fields(Some(c), &patch, "tasks.get");
    proof {
        assert(patch@.len() == 1);
        assert(patch@.drop_last() =~= Seq::<(String, String)>::empty());
        assert(patch@.last().0@ == "reminders"@);
        assert(patch@.last().1@ == tv);
        assert(members_map(patch@.drop_last()) =~= Map::<Seq<char>, Seq<char>>::empty());
        assert(members_map(patch@) =~= Map::<Seq<char>, Seq<char>>::empty().insert(
            "reminders"@,
            tv,
        ));
        assert(merged is Ok ==> members_map(merged->Ok_0@) =~= members_map(c@).insert(
            "reminders"@,
            tv,
        ));
    }
    merged
}

} // verus!
