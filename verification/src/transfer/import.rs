//! Import parsing: Markdown checklists and CSV backlogs to validated task
//! rows.
//!
//! Markdown: one task per `- [ ] Title` (or `- [x]` / `- [X]`) line;
//! lines indented with a space or tab below a task extend its description
//! (trimmed, joined with `\n`); blank lines and `#` headings are ignored;
//! anything else becomes an error row.
//!
//! CSV (RFC 4180): a header row is required; supported columns are
//! `title` (required), `description`, `due_date` and `priority`. Quoted
//! fields may contain commas, doubled quotes and newlines; `\r\n` endings
//! are accepted.

use vstd::prelude::*;

use crate::text::{
    all_ws, chars_of, copy_range, lemma_trim_empty_iff_all_ws, lemma_trim_idempotent, lines, lines_of, owned, push_char,
    push_chars, push_decimal, push_str, string_of, trim, trim_chars, views, decimal, chars_eq_str,
    debug_quote, debug_quoted, parse_i64, parse_i64_spec, snake_case,
};

verus! {

/// One parsed backlog row, before date resolution.
#[derive(Debug, Clone, PartialEq)]
pub struct ParsedTask {
    /// 1-based input line the row started on.
    pub line: usize,
    pub title: String,
    pub description: Option<String>,
    /// Raw due date string, resolved later.
    pub due_date: Option<String>,
    /// Between 0 and 5 when present.
    pub priority: Option<i64>,
}

/// A row that could not be parsed or validated.
#[derive(Debug, Clone, PartialEq)]
pub struct ParseIssue {
    /// 1-based input line the problem was found on.
    pub line: usize,
    pub message: String,
}

/// One input row: a valid task or a per-row issue.
pub type RowResult = Result<ParsedTask, ParseIssue>;

/// Mathematical view of a parsed task.
pub struct TaskRow {
    pub line: int,
    pub title: Seq<char>,
    pub description: Option<Seq<char>>,
    pub due_date: Option<Seq<char>>,
    pub priority: Option<i64>,
}

/// Mathematical view of a parse issue.
pub struct IssueRow {
    pub line: int,
    pub message: Seq<char>,
}

pub open spec fn opt_view(o: Option<String>) -> Option<Seq<char>> {
    match o {
        Some(s) => Some(s@),
        None => None,
    }
}

impl View for ParsedTask {
    type V = TaskRow;

    open spec fn view(&self) -> TaskRow {
        TaskRow {
            line: self.line as int,
            title: self.title@,
            description: opt_view(self.description),
            due_date: opt_view(self.due_date),
            priority: self.priority,
        }
    }
}

impl View for ParseIssue {
    type V = IssueRow;

    open spec fn view(&self) -> IssueRow {
        IssueRow { line: self.line as int, message: self.message@ }
    }
}

pub open spec fn row_view(r: RowResult) -> Result<TaskRow, IssueRow> {
    match r {
        Ok(t) => Ok(t@),
        Err(e) => Err(e@),
    }
}

pub open spec fn rows_view(rows: Seq<RowResult>) -> Seq<Result<TaskRow, IssueRow>> {
    rows.map_values(|r: RowResult| row_view(r))
}

proof fn lemma_rows_view_push(rows: Seq<RowResult>, r: RowResult)
    ensures
        rows_view(rows.push(r)) == rows_view(rows).push(row_view(r)),
{
    assert(rows_view(rows.push(r)) =~= rows_view(rows).push(row_view(r)));
}

fn issue(line: usize, message: String) -> (r: RowResult)
    ensures
        row_view(r) == Err::<TaskRow, IssueRow>(IssueRow { line: line as int, message: message@ }),
{
    Err(ParseIssue { line, message })
}

// ----- Markdown --------------------------------------------------------------

pub open spec fn msg_empty_task_title() -> Seq<char> {
    "task title must not be empty"@
}

pub open spec fn msg_orphan_description() -> Seq<char> {
    "indented description line without a preceding task"@
}

pub open spec fn msg_unrecognized_line() -> Seq<char> {
    "unrecognized line; tasks must look like `- [ ] Title`"@
}

/// The title of a `- [ ] Title` / `- [x] Title` / `- [X] Title` line.
pub open spec fn task_title(line: Seq<char>) -> Option<Seq<char>> {
    if line.len() >= 5 && line[0] == '-' && line[1] == ' ' && line[2] == '[' && (line[3] == ' '
        || line[3] == 'x' || line[3] == 'X') && line[4] == ']' {
        Some(trim(line.subrange(5, line.len() as int)))
    } else {
        None
    }
}

/// Markdown parser state: rows emitted so far and the task that indented
/// lines currently extend (not yet emitted).
pub struct MdState {
    pub rows: Seq<Result<TaskRow, IssueRow>>,
    pub open: Option<TaskRow>,
}

/// All rows of a state, the open task last.
pub open spec fn md_flush(st: MdState) -> Seq<Result<TaskRow, IssueRow>> {
    match st.open {
        Some(t) => st.rows.push(Ok(t)),
        None => st.rows,
    }
}

pub open spec fn md_issue(st: MdState, number: int, message: Seq<char>) -> MdState {
    MdState { rows: md_flush(st).push(Err(IssueRow { line: number, message })), open: None }
}

/// Effect of line `number` (1-based) on the parser state.
pub open spec fn md_step(st: MdState, line: Seq<char>, number: int) -> MdState {
    if trim(line).len() == 0 || line[0] == '#' {
        st
    } else {
        match task_title(line) {
            Some(title) => if title.len() == 0 {
                md_issue(st, number, msg_empty_task_title())
            } else {
                MdState {
                    rows: md_flush(st),
                    open: Some(
                        TaskRow {
                            line: number,
                            title,
                            description: None,
                            due_date: None,
                            priority: None,
                        },
                    ),
                }
            },
            None => if line[0] == ' ' || line[0] == '\t' {
                match st.open {
                    None => MdState {
                        rows: st.rows.push(
                            Err(IssueRow { line: number, message: msg_orphan_description() }),
                        ),
                        open: None,
                    },
                    Some(t) => MdState {
                        rows: st.rows,
                        open: Some(
                            TaskRow {
                                line: t.line,
                                title: t.title,
                                description: Some(
                                    match t.description {
                                        Some(d) => d.push('\n') + trim(line),
                                        None => trim(line),
                                    },
                                ),
                                due_date: t.due_date,
                                priority: t.priority,
                            },
                        ),
                    },
                }
            } else {
                md_issue(st, number, msg_unrecognized_line())
            },
        }
    }
}

/// Parser state after the first `k` lines.
pub open spec fn md_fold(ls: Seq<Seq<char>>, k: nat) -> MdState
    decreases k,
{
    if k == 0 {
        MdState { rows: seq![], open: None }
    } else {
        md_step(md_fold(ls, (k - 1) as nat), ls[k - 1], k as int)
    }
}

/// The rows a Markdown checklist parses into.
pub open spec fn markdown_rows(input: Seq<char>) -> Seq<Result<TaskRow, IssueRow>> {
    md_flush(md_fold(lines(input), lines(input).len()))
}

/// The title of a checklist line, or `None` when the line is not one.
fn task_line_title(line: &Vec<char>) -> (r: Option<Vec<char>>)
    ensures
        match r {
            Some(t) => task_title(line@) == Some(t@),
            None => task_title(line@) is None,
        },
{
    if line.len() >= 5 && line[0] == '-' && line[1] == ' ' && line[2] == '[' && (line[3] == ' '
        || line[3] == 'x' || line[3] == 'X') && line[4] == ']' {
        let rest = copy_range(line, 5, line.len());
        Some(trim_chars(&rest))
    } else {
        None
    }
}

pub open spec fn opt_task_view(o: Option<ParsedTask>) -> Option<TaskRow> {
    match o {
        Some(t) => Some(t@),
        None => None,
    }
}

/// Emits the open task, if any.
fn flush_open(rows: &mut Vec<RowResult>, open: Option<ParsedTask>)
    ensures
        rows_view(final(rows)@) == md_flush(
            MdState { rows: rows_view(old(rows)@), open: opt_task_view(open) },
        ),
{
    match open {
        Some(t) => {
            proof {
                lemma_rows_view_push(rows@, Ok(t));
            }
            rows.push(Ok(t));
        },
        None => {},
    }
}

/// Parses a Markdown checklist into rows. Bad lines become `Err` rows, so
/// every problem is reported in one pass.
pub fn parse_markdown(input: &str) -> (rows: Vec<RowResult>)
    ensures
        rows_view(rows@) == markdown_rows(input@),
{
    let chars = chars_of(input);
    let ls = lines_of(&chars);
    let ghost lsv = lines(input@);
    let mut rows: Vec<RowResult> = Vec::new();
    let mut open: Option<ParsedTask> = None;
    let mut k: usize = 0;
    assert(rows_view(rows@) =~= Seq::<Result<TaskRow, IssueRow>>::empty());
    while k < ls.len()
        invariant
            k <= ls.len(),
            lsv == views(ls@),
            lsv.len() == ls.len(),
            md_fold(lsv, k as nat) == (MdState { rows: rows_view(rows@), open: opt_task_view(open) }),
        decreases ls.len() - k,
    {
        let line = &ls[k];
        let number = k + 1;
        assert(lsv[k as int] == line@);
        let ghost st = md_fold(lsv, k as nat);
        let trimmed = trim_chars(line);
        if trimmed.len() == 0 || line[0] == '#' {
            proof {
                lemma_trim_empty_iff_all_ws(line@);
                if trimmed.len() != 0 {
                    assert(line@.len() > 0) by {
                        if line@.len() == 0 {
                            assert(all_ws(line@));
                        }
                    }
                }
            }
        } else {
            match task_line_title(line) {
                Some(title) => {
                    if title.len() == 0 {
                        let taken = open;
                        open = None;
                        flush_open(&mut rows, taken);
                        let ghost flushed = rows@;
                        let r = issue(number, owned("task title must not be empty"));
                        rows.push(r);
                        proof {
                            lemma_rows_view_push(flushed, r);
                        }
                    } else {
                        let taken = open;
                        flush_open(&mut rows, taken);
                        open = Some(
                            ParsedTask {
                                line: number,
                                title: string_of(&title),
                                description: None,
                                due_date: None,
                                priority: None,
                            },
                        );
                    }
                },
                None => {
                    if line[0] == ' ' || line[0] == '\t' {
                        match open {
                            None => {
                                let ghost before = rows@;
                                let r = issue(
                                    number,
                                    owned("indented description line without a preceding task"),
                                );
                                rows.push(r);
                                proof {
                                    lemma_rows_view_push(before, r);
                                }
                            },
                            Some(t) => {
                                let ParsedTask { line: tl, title, description, due_date, priority } =
                                    t;
                                let extended = match description {
                                    Some(d) => {
                                        let mut d = d;
                                        push_char(&mut d, '\n');
                                        push_chars(&mut d, &trimmed);
                                        d
                                    },
                                    None => string_of(&trimmed),
                                };
                                open = Some(
                                    ParsedTask {
                                        line: tl,
                                        title,
                                        description: Some(extended),
                                        due_date,
                                        priority,
                                    },
                                );
                            },
                        }
                    } else {
                        let taken = open;
                        open = None;
                        flush_open(&mut rows, taken);
                        let ghost flushed = rows@;
                        let r = issue(
                            number,
                            owned("unrecognized line; tasks must look like `- [ ] Title`"),
                        );
                        rows.push(r);
                        proof {
                            lemma_rows_view_push(flushed, r);
                        }
                    }
                },
            }
        }
        k = k + 1;
    }
    flush_open(&mut rows, open);
    rows
}

/// The input line a row started on.
pub open spec fn row_line(r: Result<TaskRow, IssueRow>) -> int {
    match r {
        Ok(t) => t.line,
        Err(e) => e.line,
    }
}

/// Rows in strictly increasing line order, each on a line from 1 to `bound`.
pub open spec fn rows_in_line_order(rows: Seq<Result<TaskRow, IssueRow>>, bound: int) -> bool {
    &&& forall|i: int, j: int| 0 <= i < j < rows.len() ==> row_line(rows[i]) < row_line(rows[j])
    &&& forall|i: int| 0 <= i < rows.len() ==> 1 <= #[trigger] row_line(rows[i]) <= bound
}

/// A checklist task: a non-empty title and no due date or priority.
pub open spec fn checklist_task(t: TaskRow) -> bool {
    t.title.len() > 0 && t.due_date is None && t.priority is None
}

/// Every valid row is a checklist task.
pub open spec fn all_checklist_tasks(rows: Seq<Result<TaskRow, IssueRow>>) -> bool {
    forall|i: int| 0 <= i < rows.len() ==> (#[trigger] rows[i] matches Ok(t) ==> checklist_task(t))
}

proof fn lemma_md_fold_ordered(ls: Seq<Seq<char>>, k: nat)
    requires
        k <= ls.len(),
    ensures
        rows_in_line_order(md_flush(md_fold(ls, k)), k as int),
        all_checklist_tasks(md_flush(md_fold(ls, k))),
        md_fold(ls, k).open matches Some(t) ==> md_flush(md_fold(ls, k)).last() == Ok::<
            TaskRow,
            IssueRow,
        >(t),
        rows_in_line_order(md_fold(ls, k).rows, k as int),
        all_checklist_tasks(md_fold(ls, k).rows),
        md_fold(ls, k).open matches Some(t) ==> checklist_task(t) && 1 <= t.line <= k
            && forall|i: int| 0 <= i < md_fold(ls, k).rows.len() ==> row_line(
                #[trigger] md_fold(ls, k).rows[i],
            ) < t.line,
    decreases k,
{
    if k > 0 {
        lemma_md_fold_ordered(ls, (k - 1) as nat);
        let st = md_fold(ls, (k - 1) as nat);
        let next = md_fold(ls, k);
        assert(next == md_step(st, ls[k - 1], k as int));
        let f = md_flush(st);
        assert(rows_in_line_order(f, k - 1));
        assert forall|i: int| 0 <= i < next.rows.len() implies #[trigger] row_line(next.rows[i]) <= k
            by {
            if i < f.len() {
                assert(row_line(f[i]) <= k - 1);
            }
            if i < st.rows.len() {
                assert(row_line(st.rows[i]) <= k - 1);
            }
        }
    }
}

/// Markdown rows come in the order of the lines they started on, each on a
/// line of the input, and every valid row is a checklist task: a non-empty
/// title, with no due date or priority.
pub proof fn lemma_markdown_rows_in_line_order(input: Seq<char>)
    ensures
        rows_in_line_order(markdown_rows(input), lines(input).len() as int),
        all_checklist_tasks(markdown_rows(input)),
{
    lemma_md_fold_ordered(lines(input), lines(input).len());
}

// ----- CSV -------------------------------------------------------------------

/// Tokenizer state while splitting CSV input into records.
pub struct CsvState {
    /// Completed records, each with the 1-based line it starts on.
    pub records: Seq<(int, Seq<Seq<char>>)>,
    /// Completed fields of the current record.
    pub fields: Seq<Seq<char>>,
    /// The field being read.
    pub field: Seq<char>,
    pub in_quotes: bool,
    /// Current 1-based line.
    pub line: int,
    /// Line the current record started on.
    pub record_line: int,
}

pub open spec fn csv_init() -> CsvState {
    CsvState {
        records: seq![],
        fields: seq![],
        field: seq![],
        in_quotes: false,
        line: 1,
        record_line: 1,
    }
}

/// Closes the current record. A record of one whitespace-only field is a
/// blank line and is dropped; any other record (`,` included) is kept.
pub open spec fn csv_end_record(st: CsvState) -> CsvState {
    let fs = st.fields.push(st.field);
    let blank = fs.len() == 1 && trim(fs[0]).len() == 0;
    CsvState {
        records: if blank {
            st.records
        } else {
            st.records.push((st.record_line, fs))
        },
        fields: seq![],
        field: seq![],
        in_quotes: st.in_quotes,
        line: st.line,
        record_line: st.record_line,
    }
}

pub open spec fn csv_with_field(st: CsvState, field: Seq<char>) -> CsvState {
    CsvState {
        records: st.records,
        fields: st.fields,
        field,
        in_quotes: st.in_quotes,
        line: st.line,
        record_line: st.record_line,
    }
}

pub open spec fn csv_with_quotes(st: CsvState, in_quotes: bool) -> CsvState {
    CsvState {
        records: st.records,
        fields: st.fields,
        field: st.field,
        in_quotes,
        line: st.line,
        record_line: st.record_line,
    }
}

/// Effect of the character at `i` (looking at `i + 1` where needed), and
/// how many characters it consumes.
pub open spec fn csv_step(s: Seq<char>, i: int, st: CsvState) -> (CsvState, int) {
    let ch = s[i];
    let next_is_quote = i + 1 < s.len() && s[i + 1] == '"';
    let next_is_newline = i + 1 < s.len() && s[i + 1] == '\n';
    if st.in_quotes {
        if ch == '"' && next_is_quote {
            (csv_with_field(st, st.field.push('"')), 2)
        } else if ch == '"' {
            (csv_with_quotes(st, false), 1)
        } else if ch == '\r' && next_is_newline {
            (st, 1)
        } else if ch == '\n' {
            (
                CsvState {
                    records: st.records,
                    fields: st.fields,
                    field: st.field.push('\n'),
                    in_quotes: true,
                    line: st.line + 1,
                    record_line: st.record_line,
                },
                1,
            )
        } else {
            (csv_with_field(st, st.field.push(ch)), 1)
        }
    } else {
        if ch == '"' && st.field.len() == 0 {
            (csv_with_quotes(st, true), 1)
        } else if ch == ',' {
            (
                CsvState {
                    records: st.records,
                    fields: st.fields.push(st.field),
                    field: seq![],
                    in_quotes: false,
                    line: st.line,
                    record_line: st.record_line,
                },
                1,
            )
        } else if ch == '\r' {
            (st, 1)
        } else if ch == '\n' {
            let e = csv_end_record(st);
            (
                CsvState {
                    records: e.records,
                    fields: e.fields,
                    field: e.field,
                    in_quotes: false,
                    line: st.line + 1,
                    record_line: st.line + 1,
                },
                1,
            )
        } else {
            (csv_with_field(st, st.field.push(ch)), 1)
        }
    }
}

/// Tokenizer state after reading `s[i..]` from state `st`.
pub open spec fn csv_run(s: Seq<char>, i: int, st: CsvState) -> CsvState
    decreases s.len() - i,
{
    if i < 0 || i >= s.len() {
        st
    } else {
        let (next, k) = csv_step(s, i, st);
        if k == 2 {
            csv_run(s, i + 2, next)
        } else {
            csv_run(s, i + 1, next)
        }
    }
}

pub open spec fn msg_unterminated_quote(line: int) -> Seq<char> {
    "unterminated quoted field starting before line "@ + decimal(line as nat)
        + ": every opening quote needs a closing quote"@
}

/// Splits CSV input into records of fields, each with the 1-based line it
/// starts on, or reports an unterminated quote.
pub open spec fn csv_records_spec(s: Seq<char>) -> Result<Seq<(int, Seq<Seq<char>>)>, Seq<char>> {
    let st = csv_run(s, 0, csv_init());
    if st.in_quotes {
        Err(msg_unterminated_quote(st.line))
    } else if st.field.len() > 0 || st.fields.len() > 0 {
        Ok(csv_end_record(st).records)
    } else {
        Ok(st.records)
    }
}

/// Executable tokenizer state.
struct CsvTokenizer {
    records: Vec<(usize, Vec<Vec<char>>)>,
    fields: Vec<Vec<char>>,
    field: Vec<char>,
    in_quotes: bool,
    line: usize,
    record_line: usize,
}

pub open spec fn record_view(r: (usize, Vec<Vec<char>>)) -> (int, Seq<Seq<char>>) {
    (r.0 as int, views(r.1@))
}

pub open spec fn records_view(v: Seq<(usize, Vec<Vec<char>>)>) -> Seq<(int, Seq<Seq<char>>)> {
    v.map_values(|r: (usize, Vec<Vec<char>>)| record_view(r))
}

impl CsvTokenizer {
    spec fn state(&self) -> CsvState {
        CsvState {
            records: records_view(self.records@),
            fields: views(self.fields@),
            field: self.field@,
            in_quotes: self.in_quotes,
            line: self.line as int,
            record_line: self.record_line as int,
        }
    }

    fn end_record(&mut self)
        ensures
            final(self).state() == csv_end_record(old(self).state()),
            final(self).line == old(self).line,
    {
        let ghost before = self.state();
        let mut field: Vec<char> = Vec::new();
        std::mem::swap(&mut field, &mut self.field);
        let ghost old_fields = self.fields@;
        self.fields.push(field);
        assert(views(self.fields@) =~= views(old_fields).push(before.field));
        let blank = self.fields.len() == 1 && trim_chars(&self.fields[0]).len() == 0;
        let mut fields: Vec<Vec<char>> = Vec::new();
        std::mem::swap(&mut fields, &mut self.fields);
        if !blank {
            let ghost old_records = self.records@;
            self.records.push((self.record_line, fields));
            assert(records_view(self.records@) =~= records_view(old_records).push(
                (before.record_line, before.fields.push(before.field)),
            ));
        }
        assert(views(self.fields@) =~= Seq::<Seq<char>>::empty());
        assert(self.field@ =~= Seq::<char>::empty());
    }
}

/// Splits CSV input into records (RFC 4180).
fn csv_records(s: &Vec<char>) -> (r: Result<Vec<(usize, Vec<Vec<char>>)>, String>)
    requires
        s.len() < usize::MAX - 1,
    ensures
        match r {
            Ok(v) => csv_records_spec(s@) == Ok::<Seq<(int, Seq<Seq<char>>)>, Seq<char>>(
                records_view(v@),
            ),
            Err(e) => csv_records_spec(s@) == Err::<Seq<(int, Seq<Seq<char>>)>, Seq<char>>(e@),
        },
{
    let mut t = CsvTokenizer {
        records: Vec::new(),
        fields: Vec::new(),
        field: Vec::new(),
        in_quotes: false,
        line: 1,
        record_line: 1,
    };
    assert(t.state() =~= csv_init()) by {
        assert(records_view(t.records@) =~= Seq::<(int, Seq<Seq<char>>)>::empty());
        assert(views(t.fields@) =~= Seq::<Seq<char>>::empty());
    }
    let n = s.len();
    let mut i: usize = 0;
    while i < n
        invariant
            n == s.len(),
            n < usize::MAX - 1,
            i <= n,
            t.line <= i + 1,
            csv_run(s@, 0, csv_init()) == csv_run(s@, i as int, t.state()),
        decreases n - i,
    {
        let ch = s[i];
        let next_is_quote = i + 1 < n && s[i + 1] == '"';
        let next_is_newline = i + 1 < n && s[i + 1] == '\n';
        let ghost st = t.state();
        let ghost step = csv_step(s@, i as int, st);
        let mut advance: usize = 1;
        if t.in_quotes {
            if ch == '"' && next_is_quote {
                t.field.push('"');
                advance = 2;
            } else if ch == '"' {
                t.in_quotes = false;
            } else if ch == '\r' && next_is_newline {
            } else if ch == '\n' {
                t.line = t.line + 1;
                t.field.push('\n');
            } else {
                t.field.push(ch);
            }
        } else {
            if ch == '"' && t.field.len() == 0 {
                t.in_quotes = true;
            } else if ch == ',' {
                let mut field: Vec<char> = Vec::new();
                std::mem::swap(&mut field, &mut t.field);
                let ghost old_fields = t.fields@;
                t.fields.push(field);
                assert(views(t.fields@) =~= views(old_fields).push(st.field));
                assert(t.field@ =~= Seq::<char>::empty());
            } else if ch == '\r' {
            } else if ch == '\n' {
                t.end_record();
                t.line = t.line + 1;
                t.record_line = t.line;
            } else {
                t.field.push(ch);
            }
        }
        assert(t.state() =~= step.0);
        i = i + advance;
    }
    if t.in_quotes {
        let mut msg = owned("unterminated quoted field starting before line ");
        push_decimal(&mut msg, t.line as u64);
        push_str(&mut msg, ": every opening quote needs a closing quote");
        return Err(msg);
    }
    if t.field.len() > 0 || t.fields.len() > 0 {
        t.end_record();
    }
    Ok(t.records)
}

/// The CSV columns this importer understands.
#[derive(Debug, Clone, Copy, PartialEq, Eq)]
pub enum Column {
    Title,
    Description,
    DueDate,
    Priority,
}

/// The column a (trimmed) header name denotes.
pub open spec fn column_named(name: Seq<char>) -> Option<Column> {
    if name == "title"@ {
        Some(Column::Title)
    } else if name == "description"@ {
        Some(Column::Description)
    } else if name == "due_date"@ {
        Some(Column::DueDate)
    } else if name == "priority"@ {
        Some(Column::Priority)
    } else {
        None
    }
}

/// The identifier of each column, as written in this enum.
pub open spec fn column_identifier(c: Column) -> Seq<char> {
    match c {
        Column::Title => "Title"@,
        Column::Description => "Description"@,
        Column::DueDate => "DueDate"@,
        Column::Priority => "Priority"@,
    }
}

/// A header name denotes a column exactly when it is the snake_case form
/// of that column's identifier: `due_date` is the `DueDate` column.
pub proof fn lemma_column_names_are_snake_case(name: Seq<char>, c: Column)
    ensures
        column_named(name) == Some(c) <==> name == snake_case(column_identifier(c)),
{
    reveal_strlit("Title");
    reveal_strlit("Description");
    reveal_strlit("DueDate");
    reveal_strlit("Priority");
    reveal_strlit("title");
    reveal_strlit("description");
    reveal_strlit("due_date");
    reveal_strlit("priority");
    reveal_with_fuel(snake_case, 12);
    assert(snake_case("Title"@) =~= "title"@);
    assert(snake_case("Description"@) =~= "description"@);
    assert(snake_case("DueDate"@) =~= "due_date"@);
    assert(snake_case("Priority"@) =~= "priority"@);
    let (t, d, u, p) = ("title"@, "description"@, "due_date"@, "priority"@);
    assert(t != d && t != u && t != p && d != u && d != p) by {
        assert(t.len() != d.len() && t.len() != u.len() && t.len() != p.len());
        assert(d.len() != u.len() && d.len() != p.len());
    }
    assert(u != p) by {
        assert(u[0] != p[0]);
    }
}

pub open spec fn msg_unsupported_column(name: Seq<char>) -> Seq<char> {
    "unsupported column "@ + debug_quoted(name)
        + "; supported columns are title, description, due_date and priority (labels cannot be imported in this version)"@
}

pub open spec fn msg_duplicate_column(name: Seq<char>) -> Seq<char> {
    "duplicate column "@ + debug_quoted(name)
}

pub open spec fn msg_empty_csv() -> Seq<char> {
    "input is empty; a CSV header row with at least a title column is required"@
}

pub open spec fn msg_missing_title_column() -> Seq<char> {
    "the CSV header must contain a title column"@
}

/// Columns of the first `k` header names, or the first header problem.
pub open spec fn header_columns(header: Seq<Seq<char>>, k: nat) -> Result<Seq<Column>, Seq<char>>
    decreases k,
{
    if k == 0 {
        Ok(seq![])
    } else {
        match header_columns(header, (k - 1) as nat) {
            Err(e) => Err(e),
            Ok(cols) => {
                let name = trim(header[k - 1]);
                match column_named(name) {
                    None => Err(msg_unsupported_column(name)),
                    Some(c) => if cols.contains(c) {
                        Err(msg_duplicate_column(name))
                    } else {
                        Ok(cols.push(c))
                    },
                }
            },
        }
    }
}

pub open spec fn msg_field_count(fields: nat, columns: nat) -> Seq<char> {
    "row has "@ + decimal(fields) + " fields but the header has "@ + decimal(columns)
        + " columns"@
}

pub open spec fn msg_bad_priority(value: Seq<char>) -> Seq<char> {
    "priority must be an integer between 0 and 5, got "@ + debug_quoted(value)
}

pub open spec fn msg_empty_title() -> Seq<char> {
    "title must not be empty"@
}

pub open spec fn with_title(t: TaskRow, title: Seq<char>) -> TaskRow {
    TaskRow {
        line: t.line,
        title,
        description: t.description,
        due_date: t.due_date,
        priority: t.priority,
    }
}

/// The task built from the first `k` (column, value) pairs of a row, and
/// the issue found among them, if any.
pub open spec fn row_fold(cols: Seq<Column>, fields: Seq<Seq<char>>, line: int, k: nat) -> (
    TaskRow,
    Option<IssueRow>,
)
    decreases k,
{
    if k == 0 {
        (TaskRow { line, title: seq![], description: None, due_date: None, priority: None }, None)
    } else {
        let (t, issue) = row_fold(cols, fields, line, (k - 1) as nat);
        let value = fields[k - 1];
        let v = trim(value);
        match cols[k - 1] {
            Column::Title => (with_title(t, v), issue),
            Column::Description => if v.len() > 0 {
                (
                    TaskRow {
                        line: t.line,
                        title: t.title,
                        description: Some(value),
                        due_date: t.due_date,
                        priority: t.priority,
                    },
                    issue,
                )
            } else {
                (t, issue)
            },
            Column::DueDate => if v.len() > 0 {
                (
                    TaskRow {
                        line: t.line,
                        title: t.title,
                        description: t.description,
                        due_date: Some(v),
                        priority: t.priority,
                    },
                    issue,
                )
            } else {
                (t, issue)
            },
            Column::Priority => if v.len() > 0 {
                match parse_i64_spec(v) {
                    Some(p) => if 0 <= p <= 5 {
                        (
                            TaskRow {
                                line: t.line,
                                title: t.title,
                                description: t.description,
                                due_date: t.due_date,
                                priority: Some(p),
                            },
                            issue,
                        )
                    } else {
                        (t, Some(IssueRow { line, message: msg_bad_priority(value) }))
                    },
                    None => (t, Some(IssueRow { line, message: msg_bad_priority(value) })),
                }
            } else {
                (t, issue)
            },
        }
    }
}

/// The row a CSV record starting on `line` parses into.
pub open spec fn csv_row(cols: Seq<Column>, line: int, fields: Seq<Seq<char>>) -> Result<
    TaskRow,
    IssueRow,
> {
    if fields.len() != cols.len() {
        Err(IssueRow { line, message: msg_field_count(fields.len(), cols.len()) })
    } else {
        let (t, issue) = row_fold(cols, fields, line, cols.len());
        match issue {
            Some(i) => Err(i),
            None => if t.title.len() == 0 {
                Err(IssueRow { line, message: msg_empty_title() })
            } else {
                Ok(t)
            },
        }
    }
}

/// What parsing a CSV backlog yields: a whole-document error, or one row
/// per data record.
pub open spec fn csv_rows(input: Seq<char>) -> Result<Seq<Result<TaskRow, IssueRow>>, Seq<char>> {
    match csv_records_spec(input) {
        Err(e) => Err(e),
        Ok(records) => if records.len() == 0 {
            Err(msg_empty_csv())
        } else {
            match header_columns(records[0].1, records[0].1.len()) {
                Err(e) => Err(e),
                Ok(cols) => if !cols.contains(Column::Title) {
                    Err(msg_missing_title_column())
                } else {
                    Ok(
                        Seq::new(
                            (records.len() - 1) as nat,
                            |i: int| csv_row(cols, records[i + 1].0, records[i + 1].1),
                        ),
                    )
                },
            }
        },
    }
}

/// What a valid CSV row holds: a non-empty trimmed title, a due date that
/// is not empty and is trimmed and a description that is not blank when
/// present, and a priority between 0 and 5 when present.
pub open spec fn valid_csv_task(t: TaskRow) -> bool {
    &&& t.title.len() > 0
    &&& t.title == trim(t.title)
    &&& t.due_date matches Some(d) ==> d.len() > 0 && d == trim(d)
    &&& t.description matches Some(d) ==> trim(d).len() > 0
    &&& t.priority matches Some(p) ==> 0 <= p <= 5
}

proof fn lemma_row_fold_valid(cols: Seq<Column>, fields: Seq<Seq<char>>, line: int, k: nat)
    requires
        k <= cols.len(),
        k <= fields.len(),
    ensures
        row_fold(cols, fields, line, k).0.line == line,
        row_fold(cols, fields, line, k).0.title == trim(row_fold(cols, fields, line, k).0.title),
        row_fold(cols, fields, line, k).0.due_date matches Some(d) ==> d.len() > 0 && d == trim(d),
        row_fold(cols, fields, line, k).0.description matches Some(d) ==> trim(d).len() > 0,
        row_fold(cols, fields, line, k).0.priority matches Some(p) ==> 0 <= p <= 5,
        row_fold(cols, fields, line, k).1 matches Some(i) ==> i.line == line,
    decreases k,
{
    if k > 0 {
        lemma_row_fold_valid(cols, fields, line, (k - 1) as nat);
        lemma_trim_idempotent(fields[k - 1]);
    } else {
        assert(trim(Seq::<char>::empty()) =~= Seq::<char>::empty());
    }
}

/// A priority cell the importer accepts: blank, or an integer from 0 to 5
/// once trimmed.
pub open spec fn priority_cell_ok(v: Seq<char>) -> bool {
    trim(v).len() == 0 || (parse_i64_spec(trim(v)) matches Some(p) && 0 <= p <= 5)
}

/// Priorities in a CSV row: the row has an issue exactly when some
/// priority cell is neither blank nor an integer from 0 to 5; and when the
/// row has one priority column whose cell holds such an integer `p`, its
/// priority is `p`.
pub proof fn lemma_priority_cells(cols: Seq<Column>, fields: Seq<Seq<char>>, line: int, k: nat)
    requires
        k <= cols.len(),
        k <= fields.len(),
    ensures
        row_fold(cols, fields, line, k).1 is None <==> forall|j: int|
            0 <= j < k && cols[j] == Column::Priority ==> priority_cell_ok(#[trigger] fields[j]),
        forall|j: int|
            0 <= j < k && cols[j] == Column::Priority && trim(fields[j]).len() > 0 && (forall|o: int|
                0 <= o < k && o != j ==> cols[o] != Column::Priority) && #[trigger] parse_i64_spec(
                trim(fields[j]),
            ) is Some && 0 <= parse_i64_spec(trim(fields[j]))->Some_0 <= 5 ==> row_fold(
                cols,
                fields,
                line,
                k,
            ).0.priority == parse_i64_spec(trim(fields[j])),
        (forall|j: int| 0 <= j < k ==> cols[j] != Column::Priority) ==> row_fold(
            cols,
            fields,
            line,
            k,
        ).0.priority is None,
    decreases k,
{
    if k > 0 {
        let p = (k - 1) as nat;
        lemma_priority_cells(cols, fields, line, p);
        if row_fold(cols, fields, line, p).1 is None {
            if cols[p as int] == Column::Priority && !priority_cell_ok(fields[p as int]) {
                assert(row_fold(cols, fields, line, k).1 is Some);
            }
        } else {
            let j = choose|j: int|
                0 <= j < p && cols[j] == Column::Priority && !priority_cell_ok(fields[j]);
            assert(0 <= j < k && cols[j] == Column::Priority && !priority_cell_ok(fields[j]));
        }
        assert forall|j: int|
            0 <= j < k && cols[j] == Column::Priority && trim(fields[j]).len() > 0 && (forall|o: int|
                0 <= o < k && o != j ==> cols[o] != Column::Priority) && #[trigger] parse_i64_spec(
                trim(fields[j]),
            ) is Some && 0 <= parse_i64_spec(trim(fields[j]))->Some_0 <= 5 implies row_fold(
                cols,
                fields,
                line,
                k,
            ).0.priority == parse_i64_spec(trim(fields[j])) by {
            if j < p {
                assert(cols[p as int] != Column::Priority);
            } else {
                assert forall|o: int| 0 <= o < p implies cols[o] != Column::Priority by {
                    assert(o != j);
                }
            }
        }
    }
}

/// Tokenizer state whose records start on strictly increasing lines, all
/// before the line the current record starts on.
pub open spec fn csv_lines_ordered(st: CsvState) -> bool {
    &&& forall|i: int, j: int| 0 <= i < j < st.records.len() ==> st.records[i].0 < st.records[j].0
    &&& forall|i: int| 0 <= i < st.records.len() ==> 1 <= #[trigger] st.records[i].0 < st.record_line
    &&& 1 <= st.record_line <= st.line
    &&& forall|i: int| 0 <= i < st.records.len() ==> !blank_record(#[trigger] st.records[i].1)
}

/// A record holding one whitespace-only field: a blank line.
pub open spec fn blank_record(fields: Seq<Seq<char>>) -> bool {
    fields.len() == 1 && trim(fields[0]).len() == 0
}

proof fn lemma_csv_end_record_ordered(st: CsvState)
    requires
        csv_lines_ordered(st),
    ensures
        forall|i: int, j: int| 0 <= i < j < csv_end_record(st).records.len() ==> csv_end_record(
            st,
        ).records[i].0 < csv_end_record(st).records[j].0,
        forall|i: int| 0 <= i < csv_end_record(st).records.len() ==> 1 <= #[trigger] csv_end_record(
            st,
        ).records[i].0 <= st.record_line,
        forall|i: int| 0 <= i < csv_end_record(st).records.len() ==> !blank_record(
            #[trigger] csv_end_record(st).records[i].1,
        ),
{
}

proof fn lemma_csv_run_ordered(s: Seq<char>, i: int, st: CsvState)
    requires
        csv_lines_ordered(st),
    ensures
        csv_lines_ordered(csv_run(s, i, st)),
    decreases s.len() - i,
{
    if 0 <= i < s.len() {
        let (next, k) = csv_step(s, i, st);
        if !st.in_quotes && s[i] == '\n' {
            lemma_csv_end_record_ordered(st);
        }
        assert(csv_lines_ordered(next));
        if k == 2 {
            lemma_csv_run_ordered(s, i + 2, next);
        } else {
            lemma_csv_run_ordered(s, i + 1, next);
        }
    }
}

/// The first `k` header cells, trimmed, each name a supported column and
/// no two are equal.
pub open spec fn header_names_ok(h: Seq<Seq<char>>, k: nat) -> bool {
    &&& forall|i: int| 0 <= i < k ==> column_named(#[trigger] trim(h[i])) is Some
    &&& forall|i: int, j: int| 0 <= i < j < k ==> trim(h[i]) != trim(h[j])
}

/// Some header cell, trimmed, is `title`.
pub open spec fn has_title_cell(h: Seq<Seq<char>>) -> bool {
    exists|i: int| 0 <= i < h.len() && #[trigger] trim(h[i]) == "title"@
}

proof fn lemma_header_columns(h: Seq<Seq<char>>, k: nat)
    requires
        k <= h.len(),
    ensures
        header_columns(h, k) is Ok <==> header_names_ok(h, k),
        header_columns(h, k) matches Ok(cols) ==> cols.len() == k && forall|i: int|
            0 <= i < k ==> column_named(trim(h[i])) == Some(#[trigger] cols[i]),
    decreases k,
{
    if k > 0 {
        let p = (k - 1) as nat;
        lemma_header_columns(h, p);
        let name = trim(h[p as int]);
        if let Ok(cols) = header_columns(h, p) {
            if let Some(c) = column_named(name) {
                if cols.contains(c) {
                    let i = choose|i: int| 0 <= i < cols.len() && cols[i] == c;
                    assert(column_named(trim(h[i])) == Some(c));
                    assert(trim(h[i]) == name);
                    assert(!header_names_ok(h, k));
                } else {
                    assert forall|i: int| 0 <= i < p implies trim(h[i]) != name by {
                        if trim(h[i]) == name {
                            assert(column_named(trim(h[i])) == Some(cols[i]));
                            assert(cols.contains(cols[i]));
                        }
                    }
                    let next = cols.push(c);
                    assert forall|i: int| 0 <= i < k implies column_named(trim(h[i])) == Some(
                        #[trigger] next[i],
                    ) by {
                        if i < p {
                            assert(next[i] == cols[i]);
                        }
                    }
                }
            } else {
                assert(!header_names_ok(h, k));
            }
        } else {
            assert(!header_names_ok(h, p));
            if header_names_ok(h, k) {
                assert(header_names_ok(h, p));
            }
        }
    }
}

proof fn lemma_header_title(h: Seq<Seq<char>>, cols: Seq<Column>)
    requires
        cols.len() == h.len(),
        forall|i: int| 0 <= i < h.len() ==> column_named(trim(h[i])) == Some(#[trigger] cols[i]),
    ensures
        cols.contains(Column::Title) <==> has_title_cell(h),
{
    if cols.contains(Column::Title) {
        let i = choose|i: int| 0 <= i < cols.len() && cols[i] == Column::Title;
        assert(column_named(trim(h[i])) == Some(cols[i]));
        assert(trim(h[i]) == "title"@);
    }
    if has_title_cell(h) {
        let i = choose|i: int| 0 <= i < h.len() && #[trigger] trim(h[i]) == "title"@;
        assert(column_named(trim(h[i])) == Some(cols[i]));
        assert(cols[i] == Column::Title);
    }
}

/// The whole CSV parse fails exactly when a quoted field is still open at
/// the end of the input, when there is no record (a line holding only
/// whitespace is no record), or when the header, its cells trimmed, has a
/// cell naming no supported column, two equal cells, or no `title` cell.
/// Otherwise there is one row per record after the header, carrying the
/// line that record started on, so that rows come in line order; every
/// valid row has a non-empty trimmed title, a non-empty trimmed due date and
/// a non-blank description when present, and a priority between 0 and 5
/// when present.
pub proof fn lemma_csv_rows_shape(input: Seq<char>)
    ensures
        csv_rows(input) is Err <==> {
            ||| csv_records_spec(input) is Err
            ||| csv_records_spec(input) matches Ok(records) && {
                ||| records.len() == 0
                ||| header_columns(records[0].1, records[0].1.len()) is Err
                ||| header_columns(records[0].1, records[0].1.len()) matches Ok(cols)
                    && !cols.contains(Column::Title)
            }
        },
        csv_rows(input) is Err <==> {
            ||| csv_records_spec(input) is Err
            ||| csv_records_spec(input) matches Ok(records) && {
                ||| records.len() == 0
                ||| !header_names_ok(records[0].1, records[0].1.len())
                ||| !has_title_cell(records[0].1)
            }
        },
        csv_records_spec(input) matches Ok(records) ==> forall|i: int|
            0 <= i < records.len() ==> !blank_record(#[trigger] records[i].1),
        csv_rows(input) matches Ok(rows) ==> forall|i: int, j: int|
            0 <= i < j < rows.len() ==> row_line(rows[i]) < row_line(rows[j]),
        csv_rows(input) matches Ok(rows) ==> csv_records_spec(input) matches Ok(records) && {
            &&& rows.len() == records.len() - 1
            &&& forall|i: int|
                0 <= i < rows.len() ==> row_line(#[trigger] rows[i]) == records[i + 1].0 && (
                rows[i] matches Ok(t) ==> valid_csv_task(t))
        },
{
    let st = csv_run(input, 0, csv_init());
    lemma_csv_run_ordered(input, 0, csv_init());
    if !st.in_quotes && (st.field.len() > 0 || st.fields.len() > 0) {
        lemma_csv_end_record_ordered(st);
    }
    if let Ok(records) = csv_records_spec(input) {
        if records.len() > 0 {
            let h = records[0].1;
            lemma_header_columns(h, h.len());
            if let Ok(cols) = header_columns(h, h.len()) {
                lemma_header_title(h, cols);
            }
        }
    }
    if let Ok(rows) = csv_rows(input) {
        let records = csv_records_spec(input)->Ok_0;
        let cols = header_columns(records[0].1, records[0].1.len())->Ok_0;
        assert forall|i: int| 0 <= i < rows.len() implies row_line(#[trigger] rows[i])
            == records[i + 1].0 && (rows[i] matches Ok(t) ==> valid_csv_task(t)) by {
            let line = records[i + 1].0;
            let fields = records[i + 1].1;
            if fields.len() == cols.len() {
                lemma_row_fold_valid(cols, fields, line, cols.len());
            }
        }
    }
}

pub open spec fn csv_result_view(r: Result<Vec<RowResult>, String>) -> Result<
    Seq<Result<TaskRow, IssueRow>>,
    Seq<char>,
> {
    match r {
        Ok(rows) => Ok(rows_view(rows@)),
        Err(e) => Err(e@),
    }
}

fn column_named_exec(name: &Vec<char>) -> (c: Option<Column>)
    ensures
        c == column_named(name@),
{
    if chars_eq_str(name, "title") {
        Some(Column::Title)
    } else if chars_eq_str(name, "description") {
        Some(Column::Description)
    } else if chars_eq_str(name, "due_date") {
        Some(Column::DueDate)
    } else if chars_eq_str(name, "priority") {
        Some(Column::Priority)
    } else {
        None
    }
}

fn contains_column(cols: &Vec<Column>, c: Column) -> (r: bool)
    ensures
        r == cols@.contains(c),
{
    let mut i: usize = 0;
    while i < cols.len()
        invariant
            i <= cols.len(),
            forall|j: int| 0 <= j < i ==> cols@[j] != c,
        decreases cols.len() - i,
    {
        let same = match (cols[i], c) {
            (Column::Title, Column::Title) => true,
            (Column::Description, Column::Description) => true,
            (Column::DueDate, Column::DueDate) => true,
            (Column::Priority, Column::Priority) => true,
            _ => false,
        };
        if same {
            assert(cols@[i as int] == c);
            return true;
        }
        i = i + 1;
    }
    false
}

proof fn lemma_header_err_sticky(header: Seq<Seq<char>>, k: nat, m: nat)
    requires
        k <= m,
        header_columns(header, k) is Err,
    ensures
        header_columns(header, m) == header_columns(header, k),
    decreases m - k,
{
    if k < m {
        lemma_header_err_sticky(header, k, (m - 1) as nat);
    }
}

fn parse_header(header: &Vec<Vec<char>>) -> (r: Result<Vec<Column>, String>)
    ensures
        match r {
            Ok(cols) => header_columns(views(header@), header.len() as nat) == Ok::<
                Seq<Column>,
                Seq<char>,
            >(cols@),
            Err(e) => header_columns(views(header@), header.len() as nat) == Err::<
                Seq<Column>,
                Seq<char>,
            >(e@),
        },
{
    let ghost hv = views(header@);
    let mut cols: Vec<Column> = Vec::new();
    let mut k: usize = 0;
    assert(cols@ =~= Seq::<Column>::empty());
    while k < header.len()
        invariant
            k <= header.len(),
            hv == views(header@),
            header_columns(hv, k as nat) == Ok::<Seq<Column>, Seq<char>>(cols@),
        decreases header.len() - k,
    {
        assert(hv[k as int] == header[k as int]@);
        let name = trim_chars(&header[k]);
        match column_named_exec(&name) {
            None => {
                let mut msg = owned("unsupported column ");
                let shown = string_of(&name);
                let quoted = debug_quote(shown.as_str());
                push_str(&mut msg, quoted.as_str());
                push_str(
                    &mut msg,
                    "; supported columns are title, description, due_date and priority (labels cannot be imported in this version)",
                );
                proof {
                    assert(header_columns(hv, (k + 1) as nat) == Err::<Seq<Column>, Seq<char>>(
                        msg@,
                    ));
                    lemma_header_err_sticky(hv, (k + 1) as nat, header.len() as nat);
                }
                return Err(msg);
            },
            Some(c) => {
                if contains_column(&cols, c) {
                    let mut msg = owned("duplicate column ");
                    let shown = string_of(&name);
                    let quoted = debug_quote(shown.as_str());
                    push_str(&mut msg, quoted.as_str());
                    proof {
                        assert(header_columns(hv, (k + 1) as nat) == Err::<Seq<Column>, Seq<char>>(
                            msg@,
                        ));
                        lemma_header_err_sticky(hv, (k + 1) as nat, header.len() as nat);
                    }
                    return Err(msg);
                }
                cols.push(c);
            },
        }
        k = k + 1;
    }
    Ok(cols)
}

/// Builds the row for one data record.
fn build_row(cols: &Vec<Column>, line: usize, fields: &Vec<Vec<char>>) -> (r: RowResult)
    ensures
        row_view(r) == csv_row(cols@, line as int, views(fields@)),
{
    let ghost fv = views(fields@);
    if fields.len() != cols.len() {
        let mut msg = owned("row has ");
        push_decimal(&mut msg, fields.len() as u64);
        push_str(&mut msg, " fields but the header has ");
        push_decimal(&mut msg, cols.len() as u64);
        push_str(&mut msg, " columns");
        return issue(line, msg);
    }
    let mut title: Vec<char> = Vec::new();
    let mut description: Option<Vec<char>> = None;
    let mut due_date: Option<Vec<char>> = None;
    let mut priority: Option<i64> = None;
    let mut problem: Option<String> = None;
    let mut k: usize = 0;
    while k < cols.len()
        invariant
            k <= cols.len(),
            cols.len() == fields.len(),
            fv == views(fields@),
            ({
                let (t, iss) = row_fold(cols@, fv, line as int, k as nat);
                &&& t.line == line as int
                &&& t.title == title@
                &&& t.description == match description {
                    Some(d) => Some(d@),
                    None => None::<Seq<char>>,
                }
                &&& t.due_date == match due_date {
                    Some(d) => Some(d@),
                    None => None::<Seq<char>>,
                }
                &&& t.priority == priority
                &&& iss == match problem {
                    Some(m) => Some(IssueRow { line: line as int, message: m@ }),
                    None => None,
                }
            }),
        decreases cols.len() - k,
    {
        let value = &fields[k];
        assert(fv[k as int] == value@);
        let v = trim_chars(value);
        match cols[k] {
            Column::Title => {
                title = v;
            },
            Column::Description => {
                if v.len() > 0 {
                    description = Some(copy_range(value, 0, value.len()));
                    assert(value@.subrange(0, value@.len() as int) =~= value@);
                }
            },
            Column::DueDate => {
                if v.len() > 0 {
                    due_date = Some(v);
                }
            },
            Column::Priority => {
                if v.len() > 0 {
                    let parsed = parse_i64(&v);
                    let ok = match parsed {
                        Some(p) => 0 <= p && p <= 5,
                        None => false,
                    };
                    if ok {
                        priority = parsed;
                    } else {
                        let mut msg = owned("priority must be an integer between 0 and 5, got ");
                        let shown = string_of(value);
                        let quoted = debug_quote(shown.as_str());
                        push_str(&mut msg, quoted.as_str());
                        problem = Some(msg);
                    }
                }
            },
        }
        k = k + 1;
    }
    match problem {
        Some(m) => issue(line, m),
        None => {
            if title.len() == 0 {
                issue(line, owned("title must not be empty"))
            } else {
                let t = ParsedTask {
                    line,
                    title: string_of(&title),
                    description: match description {
                        Some(d) => Some(string_of(&d)),
                        None => None,
                    },
                    due_date: match due_date {
                        Some(d) => Some(string_of(&d)),
                        None => None,
                    },
                    priority,
                };
                Ok(t)
            }
        },
    }
}

/// Parses a CSV backlog into rows. Whole-document problems (empty input,
/// bad header, unterminated quote) are `Err`; per-row problems are `Err`
/// rows in the result.
pub fn parse_csv(input: &str) -> (r: Result<Vec<RowResult>, String>)
    requires
        input@.len() < usize::MAX - 1,
    ensures
        csv_result_view(r) == csv_rows(input@),
{
    let chars = chars_of(input);
    let records = match csv_records(&chars) {
        Err(e) => return Err(e),
        Ok(records) => records,
    };
    let ghost rv = records_view(records@);
    if records.len() == 0 {
        return Err(owned("input is empty; a CSV header row with at least a title column is required"));
    }
    assert(rv[0] == record_view(records@[0]));
    let cols = match parse_header(&records[0].1) {
        Err(e) => return Err(e),
        Ok(cols) => cols,
    };
    if !contains_column(&cols, Column::Title) {
        return Err(owned("the CSV header must contain a title column"));
    }
    let ghost expected = Seq::new(
        (rv.len() - 1) as nat,
        |i: int| csv_row(cols@, rv[i + 1].0, rv[i + 1].1),
    );
    let mut rows: Vec<RowResult> = Vec::new();
    let mut k: usize = 1;
    assert(rows_view(rows@) =~= expected.take(0));
    while k < records.len()
        invariant
            1 <= k <= records.len(),
            rv == records_view(records@),
            expected.len() == records.len() - 1,
            expected == Seq::new(
                (rv.len() - 1) as nat,
                |i: int| csv_row(cols@, rv[i + 1].0, rv[i + 1].1),
            ),
            rows_view(rows@) == expected.take(k - 1),
        decreases records.len() - k,
    {
        let record = &records[k];
        assert(rv[k as int] == record_view(*record));
        let r = build_row(&cols, record.0, &record.1);
        let ghost before = rows@;
        rows.push(r);
        proof {
            lemma_rows_view_push(before, r);
            assert(expected.take(k as int) =~= expected.take(k - 1).push(row_view(r)));
        }
        k = k + 1;
    }
    assert(expected.take(k - 1) =~= expected);
    Ok(rows)
}

} // verus!
