//! Vikunja API models used by the library's logic. Timestamps are RFC 3339
//! strings exactly as the API returns them; Vikunja uses
//! `0001-01-01T00:00:00Z` for unset dates.

use vstd::prelude::*;

use crate::text::lower_ascii_text;

verus! {

/// A Vikunja user (`user.User`).
#[derive(Debug, Clone, PartialEq)]
pub struct User {
    pub id: i64,
    pub username: String,
    pub name: Option<String>,
    pub email: Option<String>,
    pub created: Option<String>,
    pub updated: Option<String>,
}

/// Payload for creating a project.
#[derive(Debug, Clone, Default, PartialEq)]
pub struct ProjectCreate {
    pub title: String,
    pub description: Option<String>,
    pub hex_color: Option<String>,
    pub parent_project_id: Option<i64>,
    pub identifier: Option<String>,
    pub is_favorite: Option<bool>,
}

/// Partial update of a project: `None` fields keep their current value.
#[derive(Debug, Clone, Default, PartialEq)]
pub struct ProjectUpdate {
    pub title: Option<String>,
    pub description: Option<String>,
    pub hex_color: Option<String>,
    pub parent_project_id: Option<i64>,
    pub identifier: Option<String>,
    pub is_archived: Option<bool>,
    pub is_favorite: Option<bool>,
}

/// A label (`models.Label`).
#[derive(Debug, Clone, PartialEq)]
pub struct Label {
    pub id: i64,
    pub title: String,
    pub description: String,
    pub hex_color: String,
    pub created_by: Option<User>,
    pub created: Option<String>,
    pub updated: Option<String>,
}

/// Payload for creating a label.
#[derive(Debug, Clone, Default, PartialEq)]
pub struct LabelCreate {
    pub title: String,
    pub description: Option<String>,
    pub hex_color: Option<String>,
}

/// Partial update of a label.
#[derive(Debug, Clone, Default, PartialEq)]
pub struct LabelUpdate {
    pub title: Option<String>,
    pub description: Option<String>,
    pub hex_color: Option<String>,
}

/// A task reminder: an absolute `reminder` time, or a period relative to
/// one of the task's dates.
#[derive(Debug, Clone, PartialEq)]
pub struct TaskReminder {
    pub reminder: Option<String>,
    /// Offset in seconds from `relative_to`; negative means before it.
    pub relative_period: Option<i64>,
    /// `due_date`, `start_date` or `end_date`.
    pub relative_to: Option<String>,
}

/// Kind of a relation between two tasks.
#[derive(Debug, Clone, Copy, PartialEq, Eq)]
pub enum RelationKind {
    Subtask,
    ParentTask,
    Related,
    DuplicateOf,
    Duplicates,
    Blocking,
    Blocked,
    Precedes,
    Follows,
    CopiedFrom,
    CopiedTo,
}

/// The lowercase wire name of a relation kind.
pub open spec fn relation_kind_name(kind: RelationKind) -> Seq<char> {
    match kind {
        RelationKind::Subtask => "subtask"@,
        RelationKind::ParentTask => "parenttask"@,
        RelationKind::Related => "related"@,
        RelationKind::DuplicateOf => "duplicateof"@,
        RelationKind::Duplicates => "duplicates"@,
        RelationKind::Blocking => "blocking"@,
        RelationKind::Blocked => "blocked"@,
        RelationKind::Precedes => "precedes"@,
        RelationKind::Follows => "follows"@,
        RelationKind::CopiedFrom => "copiedfrom"@,
        RelationKind::CopiedTo => "copiedto"@,
    }
}

impl RelationKind {
    /// The lowercase string Vikunja uses for this kind in JSON bodies and
    /// URL paths.
    pub fn as_str(self) -> (s: &'static str)
        ensures
            s@ == relation_kind_name(self),
    {
        match self {
            RelationKind::Subtask => "subtask",
            RelationKind::ParentTask => "parenttask",
            RelationKind::Related => "related",
            RelationKind::DuplicateOf => "duplicateof",
            RelationKind::Duplicates => "duplicates",
            RelationKind::Blocking => "blocking",
            RelationKind::Blocked => "blocked",
            RelationKind::Precedes => "precedes",
            RelationKind::Follows => "follows",
            RelationKind::CopiedFrom => "copiedfrom",
            RelationKind::CopiedTo => "copiedto",
        }
    }
}

/// The identifier of each relation kind, as written in this enum.
pub open spec fn relation_kind_identifier(kind: RelationKind) -> Seq<char> {
    match kind {
        RelationKind::Subtask => "Subtask"@,
        RelationKind::ParentTask => "ParentTask"@,
        RelationKind::Related => "Related"@,
        RelationKind::DuplicateOf => "DuplicateOf"@,
        RelationKind::Duplicates => "Duplicates"@,
        RelationKind::Blocking => "Blocking"@,
        RelationKind::Blocked => "Blocked"@,
        RelationKind::Precedes => "Precedes"@,
        RelationKind::Follows => "Follows"@,
        RelationKind::CopiedFrom => "CopiedFrom"@,
        RelationKind::CopiedTo => "CopiedTo"@,
    }
}

/// The wire name of each relation kind is its identifier in lower case,
/// words run together: `ParentTask` is `parenttask`.
pub proof fn lemma_relation_kind_names_are_lowercased(kind: RelationKind)
    ensures
        relation_kind_name(kind) == lower_ascii_text(relation_kind_identifier(kind)),
{
    reveal_strlit("Subtask");
    reveal_strlit("subtask");
    reveal_strlit("ParentTask");
    reveal_strlit("parenttask");
    reveal_strlit("Related");
    reveal_strlit("related");
    reveal_strlit("DuplicateOf");
    reveal_strlit("duplicateof");
    reveal_strlit("Duplicates");
    reveal_strlit("duplicates");
    reveal_strlit("Blocking");
    reveal_strlit("blocking");
    reveal_strlit("Blocked");
    reveal_strlit("blocked");
    reveal_strlit("Precedes");
    reveal_strlit("precedes");
    reveal_strlit("Follows");
    reveal_strlit("follows");
    reveal_strlit("CopiedFrom");
    reveal_strlit("copiedfrom");
    reveal_strlit("CopiedTo");
    reveal_strlit("copiedto");
    assert(lower_ascii_text("Subtask"@) =~= "subtask"@);
    assert(lower_ascii_text("ParentTask"@) =~= "parenttask"@);
    assert(lower_ascii_text("Related"@) =~= "related"@);
    assert(lower_ascii_text("DuplicateOf"@) =~= "duplicateof"@);
    assert(lower_ascii_text("Duplicates"@) =~= "duplicates"@);
    assert(lower_ascii_text("Blocking"@) =~= "blocking"@);
    assert(lower_ascii_text("Blocked"@) =~= "blocked"@);
    assert(lower_ascii_text("Precedes"@) =~= "precedes"@);
    assert(lower_ascii_text("Follows"@) =~= "follows"@);
    assert(lower_ascii_text("CopiedFrom"@) =~= "copiedfrom"@);
    assert(lower_ascii_text("CopiedTo"@) =~= "copiedto"@);
}

/// Distinct relation kinds have distinct wire names, so a kind can be
/// recovered from its name.
pub proof fn lemma_relation_kind_names_distinct(a: RelationKind, b: RelationKind)
    requires
        a != b,
    ensures
        relation_kind_name(a) != relation_kind_name(b),
{
    reveal_strlit("subtask");
    reveal_strlit("parenttask");
    reveal_strlit("related");
    reveal_strlit("duplicateof");
    reveal_strlit("duplicates");
    reveal_strlit("blocking");
    reveal_strlit("blocked");
    reveal_strlit("precedes");
    reveal_strlit("follows");
    reveal_strlit("copiedfrom");
    reveal_strlit("copiedto");
    let x = relation_kind_name(a);
    let y = relation_kind_name(b);
    if x == y {
        assert(x.len() == y.len());
        assert(x[0] == y[0]);
        assert(x[x.len() - 1] == y[y.len() - 1]);
        assert(x[2] == y[2]);
        assert(x[4] == y[4]);
    }
}

/// A relation between two tasks.
#[derive(Debug, Clone, PartialEq)]
pub struct TaskRelation {
    pub task_id: i64,
    pub other_task_id: i64,
    pub relation_kind: RelationKind,
    pub created_by: Option<User>,
    pub created: Option<String>,
}

/// A task comment.
#[derive(Debug, Clone, PartialEq)]
pub struct TaskComment {
    pub id: i64,
    pub comment: String,
    pub author: Option<User>,
    pub created: Option<String>,
    pub updated: Option<String>,
}

/// Metadata about an uploaded file.
#[derive(Debug, Clone, PartialEq)]
pub struct FileMeta {
    pub id: i64,
    pub name: String,
    pub mime: String,
    /// File size in bytes.
    pub size: Option<u64>,
    pub created: Option<String>,
}

/// A task attachment.
#[derive(Debug, Clone, PartialEq)]
pub struct TaskAttachment {
    pub id: i64,
    pub task_id: i64,
    pub file: Option<FileMeta>,
    pub created_by: Option<User>,
    pub created: Option<String>,
}

/// A team member: a user plus the team admin flag.
#[derive(Debug, Clone, PartialEq)]
pub struct TeamMember {
    pub id: i64,
    pub username: String,
    pub name: Option<String>,
    pub email: Option<String>,
    pub admin: bool,
}

/// A team. `permission` is present when listing the teams of a project:
/// 0 read, 1 write, 2 admin.
#[derive(Debug, Clone, PartialEq)]
pub struct Team {
    pub id: i64,
    pub name: String,
    pub description: String,
    pub members: Option<Vec<TeamMember>>,
    pub created_by: Option<User>,
    pub permission: Option<i64>,
    pub created: Option<String>,
    pub updated: Option<String>,
}

/// The query stored inside a saved filter.
#[derive(Debug, Clone, Default, PartialEq)]
pub struct SavedFilterQuery {
    /// Vikunja filter expression, e.g. `done = false && priority >= 3`.
    pub filter: Option<String>,
    /// Fields to sort by.
    pub sort_by: Option<Vec<String>>,
    /// Sort directions matching `sort_by` position by position.
    pub order_by: Option<Vec<String>>,
    /// IANA timezone used to resolve relative dates like `now/d`.
    pub filter_timezone: Option<String>,
    /// Whether tasks with a null value in a filtered field match.
    pub filter_include_nulls: Option<bool>,
}

/// A saved filter.
#[derive(Debug, Clone, PartialEq)]
pub struct SavedFilter {
    pub id: i64,
    pub title: String,
    pub description: String,
    pub filters: Option<SavedFilterQuery>,
    pub is_favorite: bool,
    pub owner: Option<User>,
    pub created: Option<String>,
    pub updated: Option<String>,
}

/// Payload for creating a saved filter.
#[derive(Debug, Clone, Default, PartialEq)]
pub struct SavedFilterCreate {
    pub title: String,
    pub description: Option<String>,
    pub filters: SavedFilterQuery,
    pub is_favorite: Option<bool>,
}

/// Partial update of a saved filter.
#[derive(Debug, Clone, Default, PartialEq)]
pub struct SavedFilterUpdate {
    pub title: Option<String>,
    pub description: Option<String>,
    pub filters: Option<SavedFilterQuery>,
    pub is_favorite: Option<bool>,
}

/// Saved-filter listing entry: Vikunja lists each saved filter as a
/// pseudo-project with id `-filter_id - 1`.
#[derive(Debug, Clone, PartialEq)]
pub struct SavedFilterSummary {
    pub filter_id: i64,
    pub pseudo_project_id: i64,
    pub title: String,
    pub description: String,
    pub is_favorite: bool,
}

/// Generic `{"message": "..."}` response.
#[derive(Debug, Clone, PartialEq)]
pub struct Message {
    pub message: String,
}

/// Response of adding a label to a task.
#[derive(Debug, Clone, PartialEq)]
pub struct LabelTask {
    pub label_id: i64,
    pub created: Option<String>,
}

/// Response of assigning a user to a task.
#[derive(Debug, Clone, PartialEq)]
pub struct TaskAssignee {
    pub user_id: i64,
    pub created: Option<String>,
}

/// The pseudo-project id of a saved filter.
pub open spec fn pseudo_project_of(filter_id: int) -> int {
    -filter_id - 1
}

/// The saved filter behind a project id: ids of -2 and below are saved
/// filters, -1 is reserved and the rest are real projects. `i64::MIN`,
/// whose negation does not fit in an `i64`, is not a filter.
pub open spec fn filter_id_of(project_id: int) -> Option<int> {
    if project_id > -2 || project_id == i64::MIN {
        None
    } else {
        Some(-project_id - 1)
    }
}

/// The pseudo-project id Vikunja uses for a saved filter.
pub fn saved_filter_pseudo_project_id(filter_id: i64) -> (p: i64)
    requires
        filter_id > i64::MIN,
    ensures
        p == pseudo_project_of(filter_id as int),
{
    -filter_id - 1
}

/// The saved filter id behind a pseudo-project id, if it is one.
pub fn saved_filter_id_from_project_id(project_id: i64) -> (f: Option<i64>)
    ensures
        match f {
            Some(id) => filter_id_of(project_id as int) == Some(id as int),
            None => filter_id_of(project_id as int) is None,
        },
{
    if project_id > -2 {
        return None;
    }
    if project_id == i64::MIN {
        return None;
    }
    Some(-project_id - 1)
}

/// Filter ids and pseudo-project ids convert into each other: a filter id
/// from 1 to `i64::MAX - 1` maps to a pseudo-project id that maps back to
/// it, and a project id that denotes a filter is that filter's
/// pseudo-project id.
pub proof fn lemma_saved_filter_ids_round_trip(filter_id: int, project_id: int)
    ensures
        1 <= filter_id < i64::MAX ==> filter_id_of(pseudo_project_of(filter_id)) == Some(filter_id),
        filter_id_of(project_id) matches Some(f) ==> pseudo_project_of(f) == project_id && f >= 1,
{
}

/// The fields of a project-list entry that saved-filter listing reads.
#[derive(Debug, Clone, PartialEq)]
pub struct ProjectListing {
    pub id: i64,
    pub title: String,
    pub description: String,
    pub is_favorite: bool,
}

/// Whether `s` is the summary of the saved filter behind the listing `p`.
pub open spec fn summarizes(s: SavedFilterSummary, p: ProjectListing) -> bool {
    &&& filter_id_of(p.id as int) == Some(s.filter_id as int)
    &&& s.pseudo_project_id == p.id
    &&& s.title == p.title
    &&& s.description == p.description
    &&& s.is_favorite == p.is_favorite
}

impl SavedFilterSummary {
    /// Interprets a project-list entry as a saved filter, if its id is in
    /// the pseudo-project range.
    pub fn from_project(project: &ProjectListing) -> (r: Option<Self>)
        ensures
            match r {
                Some(s) => summarizes(s, *project),
                None => filter_id_of(project.id as int) is None,
            },
    {
        let filter_id = match saved_filter_id_from_project_id(project.id) {
            Some(id) => id,
            None => {
                return None;
            },
        };
        Some(
            SavedFilterSummary {
                filter_id,
                pseudo_project_id: project.id,
                title: project.title.clone(),
                description: project.description.clone(),
                is_favorite: project.is_favorite,
            },
        )
    }
}

/// The saved filters among project-list entries, in list order.
pub open spec fn filter_listings(ps: Seq<ProjectListing>) -> Seq<ProjectListing>
    decreases ps.len(),
{
    if ps.len() == 0 {
        seq![]
    } else if filter_id_of(ps.last().id as int) is Some {
        filter_listings(ps.drop_last()).push(ps.last())
    } else {
        filter_listings(ps.drop_last())
    }
}

/// Keeps the pseudo-project entries of a project list, as saved filters.
pub fn saved_filters_from(projects: &[ProjectListing]) -> (r: Vec<SavedFilterSummary>)
    ensures
        r@.len() == filter_listings(projects@).len(),
        forall|i: int| 0 <= i < r@.len() ==> summarizes(#[trigger] r@[i], filter_listings(projects@)[i]),
{
    let mut out: Vec<SavedFilterSummary> = Vec::new();
    let mut i: usize = 0;
    while i < projects.len()
        invariant
            i <= projects@.len(),
            out@.len() == filter_listings(projects@.take(i as int)).len(),
            forall|j: int|
                0 <= j < out@.len() ==> summarizes(#[trigger] out@[j], filter_listings(projects@.take(i as int))[j]),
        decreases projects@.len() - i,
    {
        assert(projects@.take((i + 1) as int).drop_last() =~= projects@.take(i as int));
        assert(projects@.take((i + 1) as int).last() == projects@[i as int]);
        match SavedFilterSummary::from_project(&projects[i]) {
            Some(s) => {
                out.push(s);
            },
            None => {},
        }
        i = i + 1;
    }
    assert(projects@.take(projects@.len() as int) =~= projects@);
    out
}

} // verus!
