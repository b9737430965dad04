//! Deterministic export formatting: tasks and projects to Markdown
//! checklists and CSV.

use vstd::prelude::*;

use crate::metrics::{
    LabelOrder, lemma_text_lt_irreflexive, lemma_text_lt_total, lemma_text_lt_transitive, text_lt,
    text_order,
};
use crate::text::{
    chars_of, decimal, int_decimal, lines, lines_of, owned, push_char, push_int, push_str, trim,
    trim_chars, views,
};

verus! {

/// The zero timestamp Vikunja uses for unset dates.
pub const UNSET_DATE: &'static str = "0001-01-01T00:00:00Z";

/// Trimmed, deterministic view of a task shared by the export formats.
/// Field order defines the CSV column order. The completion fraction is
/// carried as the text it is exported as.
#[derive(Debug, Clone, PartialEq)]
pub struct ExportTask {
    pub id: i64,
    /// Human readable identifier like `PROJ-12`.
    pub identifier: String,
    pub title: String,
    pub description: String,
    pub done: bool,
    /// RFC 3339, `None` when unset.
    pub due_date: Option<String>,
    pub start_date: Option<String>,
    pub end_date: Option<String>,
    /// 0 unset, 1 low .. 5 DO NOW.
    pub priority: i64,
    /// Completion fraction between 0 and 1, as text (`0.5`).
    pub percent_done: String,
    pub project_id: i64,
    /// Label titles, sorted ascending.
    pub labels: Vec<String>,
    /// Assignee usernames, sorted ascending.
    pub assignees: Vec<String>,
}

/// Project metadata included in project exports, in stable field order.
#[derive(Debug, Clone, PartialEq)]
pub struct ExportProject {
    pub id: i64,
    /// Short prefix used in task identifiers, e.g. `PROJ`.
    pub identifier: String,
    pub title: String,
    pub description: String,
    pub is_archived: bool,
    pub parent_project_id: i64,
}

/// A date Vikunja actually set: the zero timestamp and empty strings mean
/// unset.
pub open spec fn is_set_date(v: Seq<char>) -> bool {
    v.len() > 0 && v != "0001-01-01T00:00:00Z"@
}

/// Keeps a date only when Vikunja actually set it.
pub fn set_date(date: Option<&str>) -> (r: Option<String>)
    ensures
        match date {
            Some(v) => if is_set_date(v@) {
                r matches Some(s) && s@ == v@
            } else {
                r is None
            },
            None => r is None,
        },
{
    match date {
        Some(v) => {
            let c = chars_of(v);
            if c.len() > 0 && !crate::text::str_eq(v, UNSET_DATE) {
                Some(owned(v))
            } else {
                None
            }
        },
        None => None,
    }
}

// ----- Sorting ---------------------------------------------------------------

/// Task ids in order.
pub open spec fn ids(s: Seq<ExportTask>) -> Seq<i64> {
    s.map_values(|t: ExportTask| t.id)
}

pub open spec fn sorted_by_id(s: Seq<ExportTask>) -> bool {
    forall|i: int, j: int| 0 <= i < j < s.len() ==> s[i].id <= s[j].id
}

/// Whether a task has id `x`.
pub open spec fn has_id(x: i64) -> spec_fn(ExportTask) -> bool {
    |t: ExportTask| t.id == x
}

/// The tasks of `s` with id `x`, in their order in `s`.
pub open spec fn with_id(s: Seq<ExportTask>, x: i64) -> Seq<ExportTask> {
    s.filter(has_id(x))
}

/// Exchanging two neighbours with different ids keeps the order among the
/// tasks of each id.
proof fn lemma_swap_keeps_id_order(s: Seq<ExportTask>, j: int, x: i64)
    requires
        1 <= j < s.len(),
        s[j - 1].id != s[j].id,
    ensures
        with_id(s.update(j - 1, s[j]).update(j, s[j - 1]), x) == with_id(s, x),
{
    let p = s.subrange(0, j - 1);
    let q = s.subrange(j + 1, s.len() as int);
    let a = s[j - 1];
    let b = s[j];
    let pred = has_id(x);
    assert(s =~= p + seq![a, b] + q);
    assert(s.update(j - 1, b).update(j, a) =~= p + seq![b, a] + q);
    Seq::filter_distributes_over_add(p + seq![a, b], q, pred);
    Seq::filter_distributes_over_add(p, seq![a, b], pred);
    Seq::filter_distributes_over_add(p + seq![b, a], q, pred);
    Seq::filter_distributes_over_add(p, seq![b, a], pred);
    assert(seq![a, b].filter(pred) =~= seq![b, a].filter(pred)) by {
        reveal_with_fuel(Seq::filter, 3);
        assert(seq![a, b].drop_last() =~= seq![a]);
        assert(seq![b, a].drop_last() =~= seq![b]);
        assert(seq![a].drop_last() =~= Seq::<ExportTask>::empty());
        assert(seq![b].drop_last() =~= Seq::<ExportTask>::empty());
    }
}

/// Sorts export tasks by id ascending (the deterministic default order).
/// The sort is stable: tasks with the same id keep their order. It only
/// reorders.
pub fn sort_by_id(tasks: &mut Vec<ExportTask>)
    ensures
        sorted_by_id(final(tasks)@),
        final(tasks)@.to_multiset() == old(tasks)@.to_multiset(),
        final(tasks)@.len() == old(tasks)@.len(),
        forall|x: i64| #[trigger] with_id(final(tasks)@, x) == with_id(old(tasks)@, x),
{
    let n = tasks.len();
    let mut i: usize = 1;
    if n == 0 {
        return;
    }
    while i < n
        invariant
            1 <= i <= n,
            n == tasks@.len(),
            tasks@.to_multiset() == old(tasks)@.to_multiset(),
            forall|x: i64| #[trigger] with_id(tasks@, x) == with_id(old(tasks)@, x),
            forall|a: int, b: int| 0 <= a < b < i ==> tasks@[a].id <= tasks@[b].id,
        decreases n - i,
    {
        let mut j: usize = i;
        while j > 0 && tasks[j - 1].id > tasks[j].id
            invariant
                0 <= j <= i < n,
                n == tasks@.len(),
                tasks@.to_multiset() == old(tasks)@.to_multiset(),
                forall|x: i64| #[trigger] with_id(tasks@, x) == with_id(old(tasks)@, x),
                forall|a: int, b: int|
                    0 <= a < b <= i && a != j && b != j ==> tasks@[a].id <= tasks@[b].id,
                forall|b: int| j < b <= i ==> tasks@[j as int].id < #[trigger] tasks@[b].id,
            decreases j,
        {
            let ghost before = tasks@;
            let t = tasks.remove(j);
            let ghost mid = tasks@;
            tasks.insert(j - 1, t);
            proof {
                assert(tasks@ =~= before.update(j - 1, before[j as int]).update(j as int, before[j - 1]));
                assert forall|x: i64| #[trigger] with_id(tasks@, x) == with_id(old(tasks)@, x) by {
                    lemma_swap_keeps_id_order(before, j as int, x);
                }
                vstd::seq_lib::to_multiset_remove(before, j as int);
                vstd::seq_lib::to_multiset_insert(mid, j - 1, t);
                vstd::seq_lib::to_multiset_contains(before, before[j as int]);
                assert(before.contains(before[j as int]));
                assert(tasks@.to_multiset() =~= before.to_multiset()) by {
                    broadcast use vstd::multiset::group_multiset_axioms;
                }
            }
            j = j - 1;
        }
        proof {
            assert forall|a: int, b: int| 0 <= a < b <= i implies tasks@[a].id <= tasks@[b].id by {
                if a == j {
                } else if b == j {
                    if a < j - 1 {
                        assert(tasks@[a].id <= tasks@[j - 1].id);
                    }
                }
            }
        }
        i = i + 1;
    }
}

// ----- Names -----------------------------------------------------------------

/// Names in ascending order, as `slice::sort` orders strings (by character,
/// which is the byte order of UTF-8).
pub open spec fn names_sorted(s: Seq<String>) -> bool {
    forall|i: int, j: int| 0 <= i < j < s.len() ==> !text_lt(#[trigger] s[j]@, #[trigger] s[i]@)
}

proof fn lemma_text_lt_asymmetric(a: Seq<char>, b: Seq<char>)
    requires
        text_lt(a, b),
    ensures
        !text_lt(b, a),
{
    if text_lt(b, a) {
        lemma_text_lt_transitive(a, b, a);
        lemma_text_lt_irreflexive(a);
    }
}

proof fn lemma_text_not_lt_transitive(x: Seq<char>, y: Seq<char>, z: Seq<char>)
    requires
        !text_lt(y, x),
        !text_lt(z, y),
    ensures
        !text_lt(z, x),
{
    if text_lt(z, x) && x != y {
        lemma_text_lt_total(x, y);
        lemma_text_lt_transitive(z, x, y);
    }
}

/// Sorts names ascending; the result only reorders them.
pub fn sort_names(names: &mut Vec<String>)
    ensures
        names_sorted(final(names)@),
        final(names)@.to_multiset() == old(names)@.to_multiset(),
        final(names)@.len() == old(names)@.len(),
{
    let n = names.len();
    if n == 0 {
        return;
    }
    let mut i: usize = 1;
    while i < n
        invariant
            1 <= i <= n,
            n == names@.len(),
            names@.to_multiset() == old(names)@.to_multiset(),
            forall|a: int, b: int|
                0 <= a < b < i ==> !text_lt(#[trigger] names@[b]@, #[trigger] names@[a]@),
        decreases n - i,
    {
        let mut j: usize = i;
        while j > 0 && text_order(names[j - 1].as_str(), names[j].as_str()) == LabelOrder::Greater
            invariant
                0 <= j <= i < n,
                n == names@.len(),
                names@.to_multiset() == old(names)@.to_multiset(),
                forall|a: int, b: int|
                    0 <= a < b <= i && a != j && b != j ==> !text_lt(
                        #[trigger] names@[b]@,
                        #[trigger] names@[a]@,
                    ),
                forall|b: int| j < b <= i ==> text_lt(names@[j as int]@, #[trigger] names@[b]@),
            decreases j,
        {
            let ghost before = names@;
            let t = names.remove(j);
            let ghost mid = names@;
            names.insert(j - 1, t);
            proof {
                assert(names@ =~= before.update(j - 1, before[j as int]).update(
                    j as int,
                    before[j - 1],
                ));
                vstd::seq_lib::to_multiset_remove(before, j as int);
                vstd::seq_lib::to_multiset_insert(mid, j - 1, t);
                vstd::seq_lib::to_multiset_contains(before, before[j as int]);
                assert(before.contains(before[j as int]));
                assert(names@.to_multiset() =~= before.to_multiset()) by {
                    broadcast use vstd::multiset::group_multiset_axioms;

                };
                assert forall|a: int, b: int|
                    0 <= a < b <= i && a != j - 1 && b != j - 1 implies !text_lt(
                    #[trigger] names@[b]@,
                    #[trigger] names@[a]@,
                ) by {
                    if a == j as int {
                        assert(names@[a] == before[j - 1]);
                        assert(names@[b] == before[b]);
                    } else if b == j as int {
                        assert(names@[b] == before[j - 1]);
                        assert(names@[a] == before[a]);
                    } else {
                        assert(names@[a] == before[a]);
                        assert(names@[b] == before[b]);
                    }
                }
                assert forall|b: int| j - 1 < b <= i implies text_lt(
                    names@[j - 1]@,
                    #[trigger] names@[b]@,
                ) by {
                    assert(names@[j - 1] == before[j as int]);
                    if b == j as int {
                        assert(names@[b] == before[j - 1]);
                    } else {
                        assert(names@[b] == before[b]);
                    }
                }
            }
            j = j - 1;
        }
        proof {
            assert forall|a: int, b: int| 0 <= a < b <= i implies !text_lt(
                #[trigger] names@[b]@,
                #[trigger] names@[a]@,
            ) by {
                if a == j as int {
                    lemma_text_lt_asymmetric(names@[a]@, names@[b]@);
                } else if b == j as int {
                    if a < j - 1 {
                        lemma_text_not_lt_transitive(
                            names@[a]@,
                            names@[j - 1]@,
                            names@[b]@,
                        );
                    }
                }
            }
        }
        i = i + 1;
    }
}

// ----- Projects --------------------------------------------------------------

/// The fields of a Vikunja project that an export reads.
#[derive(Debug, Clone, PartialEq)]
pub struct ProjectSnapshot {
    pub id: i64,
    pub title: String,
    pub description: String,
    pub identifier: String,
    pub is_archived: bool,
    pub parent_project_id: i64,
}

impl ExportProject {
    /// The export metadata of a project: its id, identifier, title,
    /// description, archive flag and parent, copied as they are.
    pub fn from_project(project: &ProjectSnapshot) -> (r: ExportProject)
        ensures
            r.id == project.id,
            r.identifier@ == project.identifier@,
            r.title@ == project.title@,
            r.description@ == project.description@,
            r.is_archived == project.is_archived,
            r.parent_project_id == project.parent_project_id,
    {
        ExportProject {
            id: project.id,
            identifier: project.identifier.clone(),
            title: project.title.clone(),
            description: project.description.clone(),
            is_archived: project.is_archived,
            parent_project_id: project.parent_project_id,
        }
    }
}

// ----- Tasks -----------------------------------------------------------------

/// The fields of a Vikunja task that an export reads. The completion
/// fraction is carried as its decimal text; labels and assignees by title
/// and username, `None` where Vikunja sent none.
#[derive(Debug, Clone, PartialEq)]
pub struct TaskSnapshot {
    pub id: i64,
    pub identifier: String,
    pub title: String,
    pub description: String,
    pub done: bool,
    pub due_date: Option<String>,
    pub start_date: Option<String>,
    pub end_date: Option<String>,
    pub priority: i64,
    pub percent_done: String,
    pub project_id: i64,
    pub labels: Option<Vec<String>>,
    pub assignees: Option<Vec<String>>,
}

/// The names of an optional list, none for `None`.
pub open spec fn names_of(names: Option<Vec<String>>) -> Seq<String> {
    match names {
        Some(v) => v@,
        None => Seq::empty(),
    }
}

/// `exported` is what an export keeps of the date `date`: the date when
/// Vikunja set it, else nothing.
pub open spec fn kept_date(exported: Option<String>, date: Option<String>) -> bool {
    match date {
        Some(v) => if is_set_date(v@) {
            exported matches Some(s) && s@ == v@
        } else {
            exported is None
        },
        None => exported is None,
    }
}

fn keep_date(date: &Option<String>) -> (r: Option<String>)
    ensures
        kept_date(r, *date),
{
    match date {
        Some(v) => set_date(Some(v.as_str())),
        None => None,
    }
}

fn sorted_names(names: &Option<Vec<String>>) -> (r: Vec<String>)
    ensures
        names_sorted(r@),
        r@.to_multiset() == names_of(*names).to_multiset(),
{
    let mut v: Vec<String> = match names {
        Some(v) => v.clone(),
        None => Vec::new(),
    };
    proof {
        if names is None {
            assert(v@ =~= Seq::<String>::empty());
        }
    }
    sort_names(&mut v);
    v
}

impl ExportTask {
    /// Normalizes a task for export: unset dates (the zero timestamp or an
    /// empty string) become `None`, and label titles and assignee
    /// usernames become sorted lists.
    pub fn from_task(task: &TaskSnapshot) -> (r: ExportTask)
        ensures
            r.id == task.id,
            r.identifier@ == task.identifier@,
            r.title@ == task.title@,
            r.description@ == task.description@,
            r.done == task.done,
            kept_date(r.due_date, task.due_date),
            kept_date(r.start_date, task.start_date),
            kept_date(r.end_date, task.end_date),
            r.priority == task.priority,
            r.percent_done@ == task.percent_done@,
            r.project_id == task.project_id,
            names_sorted(r.labels@),
            r.labels@.to_multiset() == names_of(task.labels).to_multiset(),
            names_sorted(r.assignees@),
            r.assignees@.to_multiset() == names_of(task.assignees).to_multiset(),
    {
        ExportTask {
            id: task.id,
            identifier: task.identifier.clone(),
            title: task.title.clone(),
            description: task.description.clone(),
            done: task.done,
            due_date: keep_date(&task.due_date),
            start_date: keep_date(&task.start_date),
            end_date: keep_date(&task.end_date),
            priority: task.priority,
            percent_done: task.percent_done.clone(),
            project_id: task.project_id,
            labels: sorted_names(&task.labels),
            assignees: sorted_names(&task.assignees),
        }
    }
}

// ----- CSV -------------------------------------------------------------------

/// Whether a CSV field needs quoting: it holds a comma, quote or line
/// break.
pub open spec fn needs_quotes(v: Seq<char>) -> bool {
    v.contains(',') || v.contains('"') || v.contains('\n') || v.contains('\r')
}

/// `v` with every quote doubled.
pub open spec fn double_quotes(v: Seq<char>) -> Seq<char>
    decreases v.len(),
{
    if v.len() == 0 {
        seq![]
    } else {
        double_quotes(v.drop_last()) + if v.last() == '"' {
            seq!['"', '"']
        } else {
            seq![v.last()]
        }
    }
}

/// A field as written to CSV (RFC 4180).
pub open spec fn csv_field_of(v: Seq<char>) -> Seq<char> {
    if needs_quotes(v) {
        seq!['"'] + double_quotes(v) + seq!['"']
    } else {
        v
    }
}

/// Quotes a CSV field when it contains a comma, quote or newline; embedded
/// quotes are doubled (RFC 4180).
pub fn csv_field(value: &str) -> (r: String)
    ensures
        r@ == csv_field_of(value@),
{
    let v = chars_of(value);
    let mut quote = false;
    let mut i: usize = 0;
    while i < v.len()
        invariant
            i <= v.len(),
            v@ == value@,
            quote == (v@.take(i as int).contains(',') || v@.take(i as int).contains('"')
                || v@.take(i as int).contains('\n') || v@.take(i as int).contains('\r')),
        decreases v.len() - i,
    {
        let c = v[i];
        proof {
            let t = v@.take(i as int);
            let t1 = v@.take((i + 1) as int);
            assert(t1 =~= t.push(c));
            assert forall|x: char| t1.contains(x) <==> (t.contains(x) || x == c) by {
                if t1.contains(x) {
                    let k = choose|k: int| 0 <= k < t1.len() && t1[k] == x;
                    if k < t.len() {
                        assert(t[k] == x);
                    }
                }
                if t.contains(x) {
                    let k = choose|k: int| 0 <= k < t.len() && t[k] == x;
                    assert(t1[k] == x);
                }
                if x == c {
                    assert(t1[i as int] == x);
                }
            }
        }
        if c == ',' || c == '"' || c == '\n' || c == '\r' {
            quote = true;
        }
        i = i + 1;
    }
    assert(v@.take(v@.len() as int) =~= v@);
    if !quote {
        return owned(value);
    }
    let mut out = String::new();
    push_char(&mut out, '"');
    let mut k: usize = 0;
    while k < v.len()
        invariant
            k <= v.len(),
            v@ == value@,
            out@ == seq!['"'] + double_quotes(v@.take(k as int)),
        decreases v.len() - k,
    {
        let c = v[k];
        assert(v@.take((k + 1) as int).drop_last() =~= v@.take(k as int));
        if c == '"' {
            push_char(&mut out, '"');
            push_char(&mut out, '"');
        } else {
            push_char(&mut out, c);
        }
        assert(out@ =~= seq!['"'] + double_quotes(v@.take((k + 1) as int)));
        k = k + 1;
    }
    push_char(&mut out, '"');
    out
}

/// `parts` joined by `sep`.
pub open spec fn join(parts: Seq<Seq<char>>, sep: Seq<char>) -> Seq<char>
    decreases parts.len(),
{
    if parts.len() == 0 {
        seq![]
    } else if parts.len() == 1 {
        parts[0]
    } else {
        join(parts.drop_last(), sep) + sep + parts.last()
    }
}

pub open spec fn string_views(v: Seq<String>) -> Seq<Seq<char>> {
    v.map_values(|s: String| s@)
}

/// Joins strings with a separator, as `[String]::join` does.
pub fn join_strings(parts: &Vec<String>, sep: &str) -> (r: String)
    ensures
        r@ == join(string_views(parts@), sep@),
{
    let mut out = String::new();
    let mut i: usize = 0;
    while i < parts.len()
        invariant
            i <= parts.len(),
            out@ == join(string_views(parts@.take(i as int)), sep@),
        decreases parts.len() - i,
    {
        let ghost before = parts@.take(i as int);
        assert(string_views(parts@.take((i + 1) as int)).drop_last() =~= string_views(before));
        if i > 0 {
            push_str(&mut out, sep);
        } else {
            assert(string_views(before).len() == 0);
        }
        push_str(&mut out, parts[i].as_str());
        assert(string_views(parts@.take((i + 1) as int)).last() == parts@[i as int]@);
        i = i + 1;
    }
    assert(parts@.take(parts@.len() as int) =~= parts@);
    out
}

/// The fixed CSV header.
pub open spec fn csv_header() -> Seq<char> {
    "id,identifier,title,description,done,due_date,start_date,end_date,priority,percent_done,project_id,labels,assignees\n"@
}

pub open spec fn bool_text(b: bool) -> Seq<char> {
    if b {
        "true"@
    } else {
        "false"@
    }
}

pub open spec fn date_text(d: Option<String>) -> Seq<char> {
    match d {
        Some(s) => s@,
        None => seq![],
    }
}

/// The fields of a task's CSV row, before quoting: unset dates are empty,
/// labels and assignees are joined with `|`.
pub open spec fn row_fields(t: ExportTask) -> Seq<Seq<char>> {
    seq![
        int_decimal(t.id as int),
        t.identifier@,
        t.title@,
        t.description@,
        bool_text(t.done),
        date_text(t.due_date),
        date_text(t.start_date),
        date_text(t.end_date),
        int_decimal(t.priority as int),
        t.percent_done@,
        int_decimal(t.project_id as int),
        join(string_views(t.labels@), "|"@),
        join(string_views(t.assignees@), "|"@),
    ]
}

/// The CSV columns, in header order.
pub open spec fn csv_columns() -> Seq<Seq<char>> {
    seq![
        "id"@,
        "identifier"@,
        "title"@,
        "description"@,
        "done"@,
        "due_date"@,
        "start_date"@,
        "end_date"@,
        "priority"@,
        "percent_done"@,
        "project_id"@,
        "labels"@,
        "assignees"@,
    ]
}

/// The text a task shows under the column named `name`, before quoting:
/// the task field of that name.
pub open spec fn column_value(t: ExportTask, name: Seq<char>) -> Seq<char> {
    if name == "id"@ {
        int_decimal(t.id as int)
    } else if name == "identifier"@ {
        t.identifier@
    } else if name == "title"@ {
        t.title@
    } else if name == "description"@ {
        t.description@
    } else if name == "done"@ {
        bool_text(t.done)
    } else if name == "due_date"@ {
        date_text(t.due_date)
    } else if name == "start_date"@ {
        date_text(t.start_date)
    } else if name == "end_date"@ {
        date_text(t.end_date)
    } else if name == "priority"@ {
        int_decimal(t.priority as int)
    } else if name == "percent_done"@ {
        t.percent_done@
    } else if name == "project_id"@ {
        int_decimal(t.project_id as int)
    } else if name == "labels"@ {
        join(string_views(t.labels@), "|"@)
    } else if name == "assignees"@ {
        join(string_views(t.assignees@), "|"@)
    } else {
        seq![]
    }
}

/// Every field of a task's CSV row sits under the header column naming
/// it: the header lists the columns, and the `i`-th field of a row is the
/// task's value for the `i`-th column.
pub proof fn lemma_csv_fields_under_their_columns(t: ExportTask)
    ensures
        csv_header() == join(csv_columns(), ","@) + "\n"@,
        row_fields(t).len() == csv_columns().len(),
        forall|i: int|
            0 <= i < csv_columns().len() ==> #[trigger] row_fields(t)[i] == column_value(
                t,
                csv_columns()[i],
            ),
{
    reveal_strlit("id");
    reveal_strlit("identifier");
    reveal_strlit("title");
    reveal_strlit("description");
    reveal_strlit("done");
    reveal_strlit("due_date");
    reveal_strlit("start_date");
    reveal_strlit("end_date");
    reveal_strlit("priority");
    reveal_strlit("percent_done");
    reveal_strlit("project_id");
    reveal_strlit("labels");
    reveal_strlit("assignees");
    reveal_strlit(",");
    reveal_strlit("\n");
    reveal_strlit("id,identifier,title,description,done,due_date,start_date,end_date,priority,percent_done,project_id,labels,assignees\n");
    let c = csv_columns();
    assert(join(c, ","@) + "\n"@ =~= csv_header()) by {
        reveal_with_fuel(join, 14);
    }
    assert forall|i: int| 0 <= i < c.len() implies #[trigger] row_fields(t)[i] == column_value(
        t,
        c[i],
    ) by {
        if i == 0 {
            assert(c[0] == "id"@);
        } else if i == 1 {
            assert(c[1] == "identifier"@);
            assert("identifier"@.len() != "id"@.len());
        } else if i == 2 {
            assert(c[2] == "title"@);
            assert("title"@.len() != "id"@.len());
            assert("title"@.len() != "identifier"@.len());
        } else if i == 3 {
            assert(c[3] == "description"@);
            assert("description"@.len() != "id"@.len());
            assert("description"@.len() != "identifier"@.len());
            assert("description"@.len() != "title"@.len());
        } else if i == 4 {
            assert(c[4] == "done"@);
            assert("done"@.len() != "id"@.len());
            assert("done"@.len() != "identifier"@.len());
            assert("done"@.len() != "title"@.len());
            assert("done"@.len() != "description"@.len());
        } else if i == 5 {
            assert(c[5] == "due_date"@);
            assert("due_date"@.len() != "id"@.len());
            assert("due_date"@.len() != "identifier"@.len());
            assert("due_date"@.len() != "title"@.len());
            assert("due_date"@.len() != "description"@.len());
            assert("due_date"@.len() != "done"@.len());
        } else if i == 6 {
            assert(c[6] == "start_date"@);
            assert("start_date"@.len() != "id"@.len());
            assert("start_date"@[0] != "identifier"@[0]);
            assert("start_date"@.len() != "title"@.len());
            assert("start_date"@.len() != "description"@.len());
            assert("start_date"@.len() != "done"@.len());
            assert("start_date"@.len() != "due_date"@.len());
        } else if i == 7 {
            assert(c[7] == "end_date"@);
            assert("end_date"@.len() != "id"@.len());
            assert("end_date"@.len() != "identifier"@.len());
            assert("end_date"@.len() != "title"@.len());
            assert("end_date"@.len() != "description"@.len());
            assert("end_date"@.len() != "done"@.len());
            assert("end_date"@[0] != "due_date"@[0]);
            assert("end_date"@.len() != "start_date"@.len());
        } else if i == 8 {
            assert(c[8] == "priority"@);
            assert("priority"@.len() != "id"@.len());
            assert("priority"@.len() != "identifier"@.len());
            assert("priority"@.len() != "title"@.len());
            assert("priority"@.len() != "description"@.len());
            assert("priority"@.len() != "done"@.len());
            assert("priority"@[0] != "due_date"@[0]);
            assert("priority"@.len() != "start_date"@.len());
            assert("priority"@[0] != "end_date"@[0]);
        } else if i == 9 {
            assert(c[9] == "percent_done"@);
            assert("percent_done"@.len() != "id"@.len());
            assert("percent_done"@.len() != "identifier"@.len());
            assert("percent_done"@.len() != "title"@.len());
            assert("percent_done"@.len() != "description"@.len());
            assert("percent_done"@.len() != "done"@.len());
            assert("percent_done"@.len() != "due_date"@.len());
            assert("percent_done"@.len() != "start_date"@.len());
            assert("percent_done"@.len() != "end_date"@.len());
            assert("percent_done"@.len() != "priority"@.len());
        } else if i == 10 {
            assert(c[10] == "project_id"@);
            assert("project_id"@.len() != "id"@.len());
            assert("project_id"@[0] != "identifier"@[0]);
            assert("project_id"@.len() != "title"@.len());
            assert("project_id"@.len() != "description"@.len());
            assert("project_id"@.len() != "done"@.len());
            assert("project_id"@.len() != "due_date"@.len());
            assert("project_id"@[0] != "start_date"@[0]);
            assert("project_id"@.len() != "end_date"@.len());
            assert("project_id"@.len() != "priority"@.len());
            assert("project_id"@.len() != "percent_done"@.len());
        } else if i == 11 {
            assert(c[11] == "labels"@);
            assert("labels"@.len() != "id"@.len());
            assert("labels"@.len() != "identifier"@.len());
            assert("labels"@.len() != "title"@.len());
            assert("labels"@.len() != "description"@.len());
            assert("labels"@.len() != "done"@.len());
            assert("labels"@.len() != "due_date"@.len());
            assert("labels"@.len() != "start_date"@.len());
            assert("labels"@.len() != "end_date"@.len());
            assert("labels"@.len() != "priority"@.len());
            assert("labels"@.len() != "percent_done"@.len());
            assert("labels"@.len() != "project_id"@.len());
        } else if i == 12 {
            assert(c[12] == "assignees"@);
            assert("assignees"@.len() != "id"@.len());
            assert("assignees"@.len() != "identifier"@.len());
            assert("assignees"@.len() != "title"@.len());
            assert("assignees"@.len() != "description"@.len());
            assert("assignees"@.len() != "done"@.len());
            assert("assignees"@.len() != "due_date"@.len());
            assert("assignees"@.len() != "start_date"@.len());
            assert("assignees"@.len() != "end_date"@.len());
            assert("assignees"@.len() != "priority"@.len());
            assert("assignees"@.len() != "percent_done"@.len());
            assert("assignees"@.len() != "project_id"@.len());
            assert("assignees"@.len() != "labels"@.len());
        }
    }
}

/// A task's CSV row, with its line ending.
pub open spec fn csv_row_of(t: ExportTask) -> Seq<char> {
    join(row_fields(t).map_values(|f: Seq<char>| csv_field_of(f)), ","@) + "\n"@
}

/// The rows of the first `k` tasks.
pub open spec fn csv_rows(tasks: Seq<ExportTask>, k: nat) -> Seq<char>
    decreases k,
{
    if k == 0 {
        seq![]
    } else {
        csv_rows(tasks, (k - 1) as nat) + csv_row_of(tasks[k - 1])
    }
}

fn int_text(i: i64) -> (s: String)
    ensures
        s@ == int_decimal(i as int),
{
    let mut s = String::new();
    push_int(&mut s, i);
    s
}

fn date_field(d: &Option<String>) -> (s: String)
    ensures
        s@ == date_text(*d),
{
    match d {
        Some(v) => owned(v.as_str()),
        None => String::new(),
    }
}

fn csv_row(t: &ExportTask) -> (s: String)
    ensures
        s@ == csv_row_of(*t),
{
    let fields: Vec<String> = vec![
        int_text(t.id),
        owned(t.identifier.as_str()),
        owned(t.title.as_str()),
        owned(t.description.as_str()),
        owned(
            if t.done {
                "true"
            } else {
                "false"
            },
        ),
        date_field(&t.due_date),
        date_field(&t.start_date),
        date_field(&t.end_date),
        int_text(t.priority),
        owned(t.percent_done.as_str()),
        int_text(t.project_id),
        join_strings(&t.labels, "|"),
        join_strings(&t.assignees, "|"),
    ];
    assert(string_views(fields@) =~= row_fields(*t));
    let mut quoted: Vec<String> = Vec::new();
    let mut i: usize = 0;
    while i < fields.len()
        invariant
            i <= fields.len(),
            string_views(fields@) == row_fields(*t),
            string_views(quoted@) =~= row_fields(*t).take(i as int).map_values(
                |f: Seq<char>| csv_field_of(f),
            ),
        decreases fields.len() - i,
    {
        let q = csv_field(fields[i].as_str());
        assert(fields@[i as int]@ == row_fields(*t)[i as int]);
        let ghost prev = quoted@;
        quoted.push(q);
        proof {
            let g = |f: Seq<char>| csv_field_of(f);
            assert(string_views(quoted@) =~= string_views(prev).push(q@));
            assert(row_fields(*t).take((i + 1) as int).map_values(g) =~= row_fields(*t).take(
                i as int,
            ).map_values(g).push(csv_field_of(row_fields(*t)[i as int])));
        }
        i = i + 1;
    }
    assert(row_fields(*t).take(fields@.len() as int) =~= row_fields(*t));
    assert(string_views(quoted@) =~= row_fields(*t).map_values(|f: Seq<char>| csv_field_of(f)));
    let mut row = join_strings(&quoted, ",");
    push_char(&mut row, '\n');
    proof {
        reveal_strlit("\n");
        assert(row@ =~= csv_row_of(*t));
    }
    row
}

/// CSV with a fixed header
/// `id,identifier,title,description,done,due_date,start_date,end_date,priority,percent_done,project_id,labels,assignees`,
/// one row per task; rows end with `\n`.
pub fn tasks_to_csv(tasks: &[ExportTask]) -> (r: String)
    ensures
        r@ == csv_header() + csv_rows(tasks@, tasks@.len()),
{
    let mut csv = owned(
        "id,identifier,title,description,done,due_date,start_date,end_date,priority,percent_done,project_id,labels,assignees\n",
    );
    let mut i: usize = 0;
    while i < tasks.len()
        invariant
            i <= tasks.len(),
            csv@ == csv_header() + csv_rows(tasks@, i as nat),
        decreases tasks.len() - i,
    {
        let row = csv_row(&tasks[i]);
        push_str(&mut csv, row.as_str());
        proof {
            assert(csv_header() + csv_rows(tasks@, (i + 1) as nat) =~= csv_header() + csv_rows(tasks@, i as nat)
                + csv_row_of(tasks@[i as int]));
        }
        i = i + 1;
    }
    csv
}

// ----- Markdown --------------------------------------------------------------

/// The non-blank lines of a description, each indented by two spaces.
pub open spec fn description_lines(ls: Seq<Seq<char>>) -> Seq<char>
    decreases ls.len(),
{
    if ls.len() == 0 {
        seq![]
    } else {
        description_lines(ls.drop_last()) + if trim(ls.last()).len() == 0 {
            seq![]
        } else {
            "  "@ + ls.last() + "\n"@
        }
    }
}

/// One checklist item: `- [ ] Title` or `- [x] Title`, then the
/// description's non-blank lines indented below it.
pub open spec fn markdown_item(t: ExportTask) -> Seq<char> {
    "- ["@ + seq![
        if t.done {
            'x'
        } else {
            ' '
        },
    ] + "] "@ + t.title@ + "\n"@ + description_lines(lines(t.description@))
}

pub open spec fn markdown_items(tasks: Seq<ExportTask>, k: nat) -> Seq<char>
    decreases k,
{
    if k == 0 {
        seq![]
    } else {
        markdown_items(tasks, (k - 1) as nat) + markdown_item(tasks[k - 1])
    }
}

fn push_markdown_item(out: &mut String, t: &ExportTask)
    ensures
        final(out)@ == old(out)@ + markdown_item(*t),
{
    push_str(out, "- [");
    push_char(
        out,
        if t.done {
            'x'
        } else {
            ' '
        },
    );
    push_str(out, "] ");
    push_str(out, t.title.as_str());
    push_str(out, "\n");
    let ls = lines_of(&chars_of(t.description.as_str()));
    let ghost start = out@;
    let mut i: usize = 0;
    while i < ls.len()
        invariant
            i <= ls.len(),
            views(ls@) == lines(t.description@),
            out@ == start + description_lines(views(ls@).take(i as int)),
        decreases ls.len() - i,
    {
        assert(views(ls@).take((i + 1) as int).drop_last() =~= views(ls@).take(i as int));
        assert(views(ls@).take((i + 1) as int).last() == ls@[i as int]@);
        let line = &ls[i];
        if trim_chars(line).len() > 0 {
            push_str(out, "  ");
            let mut j: usize = 0;
            let ghost mid = out@;
            while j < line.len()
                invariant
                    j <= line.len(),
                    out@ == mid + line@.take(j as int),
                decreases line.len() - j,
            {
                push_char(out, line[j]);
                assert(line@.take((j + 1) as int) =~= line@.take(j as int).push(line@[j as int]));
                j = j + 1;
            }
            assert(line@.take(line@.len() as int) =~= line@);
            push_str(out, "\n");
        }
        i = i + 1;
    }
    assert(views(ls@).take(ls@.len() as int) =~= views(ls@));
}

/// Markdown checklist, one task per item, description lines (if any)
/// indented by two spaces below their task.
pub fn tasks_to_markdown(tasks: &[ExportTask]) -> (r: String)
    ensures
        r@ == markdown_items(tasks@, tasks@.len()),
{
    let mut markdown = String::new();
    let mut i: usize = 0;
    while i < tasks.len()
        invariant
            i <= tasks.len(),
            markdown@ == markdown_items(tasks@, i as nat),
        decreases tasks.len() - i,
    {
        push_markdown_item(&mut markdown, &tasks[i]);
        i = i + 1;
    }
    markdown
}

/// The Markdown export of a project: an `# Title` heading, the description
/// when not empty, and a `## Tasks` checklist section when tasks were
/// fetched.
pub open spec fn project_markdown(p: ExportProject, tasks: Option<Seq<ExportTask>>) -> Seq<char> {
    "# "@ + p.title@ + "\n"@ + (if p.description@.len() > 0 {
        "\n"@ + p.description@ + "\n"@
    } else {
        seq![]
    }) + match tasks {
        Some(ts) => "\n## Tasks\n\n"@ + markdown_items(ts, ts.len()),
        None => seq![],
    }
}

pub fn project_to_markdown(project: &ExportProject, tasks: Option<&[ExportTask]>) -> (r: String)
    ensures
        r@ == project_markdown(
            *project,
            match tasks {
                Some(t) => Some(t@),
                None => None,
            },
        ),
{
    let mut markdown = owned("# ");
    push_str(&mut markdown, project.title.as_str());
    push_str(&mut markdown, "\n");
    if chars_of(project.description.as_str()).len() > 0 {
        push_str(&mut markdown, "\n");
        push_str(&mut markdown, project.description.as_str());
        push_str(&mut markdown, "\n");
    }
    if let Some(tasks) = tasks {
        push_str(&mut markdown, "\n## Tasks\n\n");
        let items = tasks_to_markdown(tasks);
        push_str(&mut markdown, items.as_str());
    }
    markdown
}

} // verus!
